use dpmaster_proto::deserializer::{
    getinfo, getinfo_message, getservers, getservers_message, getserversresponse,
    getserversresponse_message, heartbeat, heartbeat_message, inforesponse, inforesponse_message,
    message_prefix, ErrorKind, ParseError, VerboseError, VerboseErrorKind,
};
use dpmaster_proto::error::{DeserializationError, SyntaxKind};
use dpmaster_proto::messages::{
    FilterOptions, GameName, GameType, GetServersMessage, GetServersResponseMessage,
    HeartbeatMessage, Info, InfoKey, InfoResponseMessage, InfoValue, ProtocolName,
};
use dpmaster_proto::net::{Ipv4Addr, SocketAddrV4};

fn fails_at<T>(input: &[u8], kind: SyntaxKind) -> Result<T, DeserializationError<&[u8]>> {
    Err(DeserializationError::Nom(input, kind))
}

#[test]
fn test_message_prefix_keeps_what_follows() {
    let result = message_prefix::<()>(b"\xFF\xFF\xFF\xFFgetinfo x");
    assert_eq!(result, Ok((&b"getinfo x"[..], &b"\xFF\xFF\xFF\xFF"[..])));
}

#[test]
fn test_message_prefix_too_short() {
    assert_eq!(message_prefix::<()>(b"\xFF\xFF\xFF"), Err(()));
    assert_eq!(
        message_prefix::<DeserializationError<_>>(&b"\xFF\xFF\xFF"[..]),
        fails_at(b"\xFF\xFF\xFF", SyntaxKind::Tag)
    );
}

#[test]
fn test_every_message_parser_wants_the_prefix() {
    let data = &b"heartbeat DarkPlaces\n"[..];
    assert_eq!(heartbeat_message(data), fails_at(data, SyntaxKind::Tag));
    assert_eq!(getinfo_message(data), fails_at(data, SyntaxKind::Tag));
    assert_eq!(inforesponse_message(data), fails_at(data, SyntaxKind::Tag));
    assert_eq!(getservers_message(data), fails_at(data, SyntaxKind::Tag));
    assert_eq!(getserversresponse_message(data), fails_at(data, SyntaxKind::Tag));
}

#[test]
fn test_commands_are_case_sensitive() {
    assert_eq!(
        heartbeat(b"Heartbeat DarkPlaces\n"),
        fails_at(b"Heartbeat DarkPlaces\n", SyntaxKind::Tag)
    );
    assert_eq!(getinfo(b"getInfo x"), fails_at(b"getInfo x", SyntaxKind::Tag));
    assert_eq!(
        inforesponse(b"inforesponse\n\\a\\b"),
        fails_at(b"inforesponse\n\\a\\b", SyntaxKind::Tag)
    );
    assert_eq!(getservers(b"GETSERVERS 3"), fails_at(b"GETSERVERS 3", SyntaxKind::Tag));
    assert_eq!(
        getserversresponse(b"getserversresponse"),
        fails_at(b"getserversresponse", SyntaxKind::Tag)
    );
}

#[test]
fn test_heartbeat_errors() {
    assert_eq!(heartbeat(b""), fails_at(b"", SyntaxKind::Tag));
    assert_eq!(heartbeat(b"heartbeat"), fails_at(b"", SyntaxKind::TakeWhile1));
    assert_eq!(
        heartbeat(b"heartbeatDarkPlaces"),
        fails_at(b"DarkPlaces", SyntaxKind::TakeWhile1)
    );
    assert_eq!(heartbeat(b"heartbeat  "), fails_at(b"", SyntaxKind::TakeWhile1));
    assert_eq!(heartbeat(b"heartbeat \n"), fails_at(b"\n", SyntaxKind::TakeWhile1));
}

#[test]
fn test_heartbeat_spaces_and_newlines() {
    let expected = HeartbeatMessage::new(ProtocolName::new(b"DarkPlaces".to_vec()).unwrap());
    assert_eq!(
        heartbeat(b"heartbeat   DarkPlaces\n\n\n"),
        Ok((&b""[..], HeartbeatMessage::new(ProtocolName::new(b"DarkPlaces".to_vec()).unwrap())))
    );
    assert_eq!(heartbeat(b"heartbeat DarkPlaces"), Ok((&b""[..], expected)));
    assert_eq!(
        heartbeat(b"heartbeat Dark Places\nmore"),
        Ok((
            &b"more"[..],
            HeartbeatMessage::new(ProtocolName::new(b"Dark Places".to_vec()).unwrap())
        ))
    );
}

#[test]
fn test_heartbeat_message_scenario() {
    assert_eq!(
        heartbeat_message(b"\xFF\xFF\xFF\xFFheartbeat DarkPlaces\n"),
        Ok((
            &b""[..],
            HeartbeatMessage::new(ProtocolName::new(b"DarkPlaces".to_vec()).unwrap())
        ))
    );
}

#[test]
fn test_getinfo_errors() {
    assert_eq!(getinfo(b"getinfo"), fails_at(b"", SyntaxKind::TakeWhile1));
    // an empty challenge
    assert_eq!(getinfo(b"getinfo "), fails_at(b"", SyntaxKind::MapRes));
    // a challenge with a byte that is not admitted
    assert_eq!(getinfo(b"getinfo uhoh;"), fails_at(b"uhoh;", SyntaxKind::MapRes));
    assert_eq!(getinfo(b"getinfo a b"), fails_at(b"a b", SyntaxKind::MapRes));
    assert_eq!(getinfo(b"getinfo abc\n"), fails_at(b"abc\n", SyntaxKind::MapRes));
}

#[test]
fn test_getinfo_message_scenario() {
    let (rest, message) = getinfo_message(b"\xFF\xFF\xFF\xFFgetinfo A_ch4Lleng3").unwrap();
    assert!(rest.is_empty());
    assert_eq!(message.challenge().as_bytes(), b"A_ch4Lleng3");
}

fn info_of(pairs: &[(&[u8], &[u8])]) -> Info {
    let mut info = Info::new();
    for (key, value) in pairs {
        info.insert(
            InfoKey::new(key.to_vec()).unwrap(),
            InfoValue::new(value.to_vec()).unwrap(),
        );
    }
    info
}

#[test]
fn test_inforesponse_errors() {
    assert_eq!(inforesponse(b"infoResponse"), fails_at(b"", SyntaxKind::Tag));
    assert_eq!(
        inforesponse(b"infoResponse\n\n\\a\\b"),
        fails_at(b"\n\\a\\b", SyntaxKind::Tag)
    );
    // at least one pair
    assert_eq!(inforesponse(b"infoResponse\n"), fails_at(b"", SyntaxKind::Tag));
    assert_eq!(inforesponse(b"infoResponse\nab"), fails_at(b"ab", SyntaxKind::Tag));
    // an empty key, an empty value, a missing value
    assert_eq!(
        inforesponse(b"infoResponse\n\\\\b"),
        fails_at(b"\\b", SyntaxKind::TakeWhile1)
    );
    assert_eq!(inforesponse(b"infoResponse\n\\a\\"), fails_at(b"", SyntaxKind::TakeWhile1));
    assert_eq!(inforesponse(b"infoResponse\n\\a"), fails_at(b"", SyntaxKind::Tag));
}

#[test]
fn test_inforesponse_leaves_what_is_no_pair() {
    assert_eq!(
        inforesponse(b"infoResponse\n\\a\\1\\b"),
        Ok((&b"\\b"[..], InfoResponseMessage::new(info_of(&[(b"a", b"1")]))))
    );
    assert_eq!(
        inforesponse(b"infoResponse\n\\a\\1\\b\\"),
        Ok((&b"\\b\\"[..], InfoResponseMessage::new(info_of(&[(b"a", b"1")]))))
    );
}

#[test]
fn test_inforesponse_repeated_key_overwrites_in_place() {
    let (rest, message) = inforesponse(b"infoResponse\n\\a\\1\\b\\2\\a\\3").unwrap();
    assert!(rest.is_empty());
    assert_eq!(
        message,
        InfoResponseMessage::new(info_of(&[(b"a", b"3"), (b"b", b"2")]))
    );
    assert_ne!(
        message,
        InfoResponseMessage::new(info_of(&[(b"b", b"2"), (b"a", b"3")]))
    );
}

#[test]
fn test_inforesponse_message_scenario() {
    let (rest, message) =
        inforesponse_message(b"\xFF\xFF\xFF\xFFinfoResponse\n\\sv_maxclients\\8\\clients\\0")
            .unwrap();
    assert!(rest.is_empty());
    assert_eq!(message.info().get_index(0), Some((&b"sv_maxclients"[..], &b"8"[..])));
    assert_eq!(message.info().get_index(1), Some((&b"clients"[..], &b"0"[..])));
    assert_eq!(message.info().len(), 2);
}

#[test]
fn test_getservers_errors() {
    assert_eq!(getservers(b"getservers"), fails_at(b"", SyntaxKind::TakeWhile1));
    assert_eq!(getservers(b"getservers68"), fails_at(b"68", SyntaxKind::TakeWhile1));
    // no protocol number
    assert_eq!(getservers(b"getservers "), fails_at(b"", SyntaxKind::MapRes));
    assert_eq!(getservers(b"getservers Nexuiz"), fails_at(b"", SyntaxKind::MapRes));
    assert_eq!(getservers(b"getservers Nexuiz "), fails_at(b"", SyntaxKind::MapRes));
    // a protocol number that does not fit
    assert_eq!(
        getservers(b"getservers 4294967296"),
        fails_at(b"4294967296", SyntaxKind::MapRes)
    );
    assert_eq!(
        getservers(b"getservers Nexuiz 99999999999999999999999 full"),
        fails_at(b"99999999999999999999999 full", SyntaxKind::MapRes)
    );
    // a game name with a NUL byte
    assert_eq!(
        getservers(b"getservers Nex\0uiz 3"),
        fails_at(b"Nex\0uiz 3", SyntaxKind::MapRes)
    );
}

#[test]
fn test_getservers_numbers() {
    let expect = |number| GetServersMessage::new(None, number, FilterOptions::new(None, false, false));
    assert_eq!(getservers(b"getservers 0"), Ok((&b""[..], expect(0))));
    assert_eq!(getservers(b"getservers 4294967295"), Ok((&b""[..], expect(4294967295))));
    assert_eq!(getservers(b"getservers 0000000000000068"), Ok((&b""[..], expect(68))));
    assert_eq!(getservers(b"getservers   68  "), Ok((&b""[..], expect(68))));
    assert_eq!(getservers(b"getservers 68x"), Ok((&b"x"[..], expect(68))));
}

#[test]
fn test_getservers_filter_options() {
    let expect = |gametype: Option<&[u8]>, empty, full| {
        GetServersMessage::new(
            None,
            67,
            FilterOptions::new(gametype.map(|g| GameType::new(g.to_vec()).unwrap()), empty, full),
        )
    };
    // any order
    assert_eq!(
        getservers(b"getservers 67 full empty gametype=0"),
        Ok((&b""[..], expect(Some(b"0"), true, true)))
    );
    // the last game type wins, a repeated flag changes nothing
    assert_eq!(
        getservers(b"getservers 67 gametype=0 full gametype=ctf full"),
        Ok((&b""[..], expect(Some(b"ctf"), false, true)))
    );
    // options are separated by exactly one space
    assert_eq!(
        getservers(b"getservers 67 empty  full"),
        Ok((&b"  full"[..], expect(None, true, false)))
    );
    // what is no option is left over
    assert_eq!(
        getservers(b"getservers 67 empty ipv6"),
        Ok((&b" ipv6"[..], expect(None, true, false)))
    );
    assert_eq!(
        getservers(b"getservers 67 gametype= full"),
        Ok((&b"gametype= full"[..], expect(None, false, false)))
    );
    assert_eq!(
        getservers(b"getservers 67 emptyfull"),
        Ok((&b"full"[..], expect(None, true, false)))
    );
}

#[test]
fn test_getservers_message_scenarios() {
    assert_eq!(
        getservers_message(b"\xFF\xFF\xFF\xFFgetservers 67 gametype=0 empty full"),
        Ok((
            &b""[..],
            GetServersMessage::new(
                None,
                67,
                FilterOptions::new(Some(GameType::new(b"0".to_vec()).unwrap()), true, true)
            )
        ))
    );
    assert_eq!(
        getservers_message(b"\xFF\xFF\xFF\xFFgetservers qfusion 39 full"),
        Ok((
            &b""[..],
            GetServersMessage::new(
                Some(GameName::new(b"qfusion".to_vec()).unwrap()),
                39,
                FilterOptions::new(None, false, true)
            )
        ))
    );
    assert_eq!(
        getservers_message(b"\xFF\xFF\xFF\xFFgetservers 84"),
        Ok((
            &b""[..],
            GetServersMessage::new(None, 84, FilterOptions::new(None, false, false))
        ))
    );
    assert_eq!(
        getservers_message(b"\xFF\xFF\xFF\xFFgetservers Nexuiz 3"),
        Ok((
            &b""[..],
            GetServersMessage::new(
                Some(GameName::new(b"Nexuiz".to_vec()).unwrap()),
                3,
                FilterOptions::new(None, false, false)
            )
        ))
    );
}

#[test]
fn test_getserversresponse_errors() {
    // neither a separator nor the end
    assert_eq!(getserversresponse(b"getserversResponseX"), fails_at(b"X", SyntaxKind::Tag));
    // an incomplete address
    assert_eq!(getserversresponse(b"getserversResponse\\"), fails_at(b"", SyntaxKind::Eof));
    assert_eq!(
        getserversresponse(b"getserversResponse\\\x01\x02\x03"),
        fails_at(b"", SyntaxKind::Eof)
    );
    assert_eq!(
        getserversresponse(b"getserversResponse\\\x01\x02\x03\x04"),
        fails_at(b"", SyntaxKind::Eof)
    );
    assert_eq!(
        getserversresponse(b"getserversResponse\\\x01\x02\x03\x04\x05"),
        fails_at(b"\x05", SyntaxKind::Eof)
    );
    // bytes behind the end-of-transmission mark
    assert_eq!(
        getserversresponse(b"getserversResponse\\EOT\0\0\0X"),
        fails_at(b"X", SyntaxKind::Tag)
    );
    // an end-of-transmission mark that is cut short
    assert_eq!(
        getserversresponse(b"getserversResponse\\EOT\0\0"),
        fails_at(b"\0", SyntaxKind::Eof)
    );
}

#[test]
fn test_getserversresponse_mark_in_front_of_more_is_an_address() {
    let data = b"getserversResponse\\EOT\0\0\0\\\x01\x02\x03\x04\x08\x00";
    assert_eq!(
        getserversresponse(data),
        Ok((
            &b""[..],
            GetServersResponseMessage::new(
                vec![
                    SocketAddrV4::new(Ipv4Addr::new(b'E', b'O', b'T', 0), 0),
                    SocketAddrV4::new(Ipv4Addr::new(1, 2, 3, 4), 2048),
                ],
                false
            )
        ))
    );
}

#[test]
fn test_getserversresponse_without_servers() {
    assert_eq!(
        getserversresponse(b"getserversResponse"),
        Ok((&b""[..], GetServersResponseMessage::new(vec![], false)))
    );
    assert_eq!(
        getserversresponse(b"getserversResponse\\EOT\0\0\0"),
        Ok((&b""[..], GetServersResponseMessage::new(vec![], true)))
    );
}

#[test]
fn test_getserversresponse_message_scenarios() {
    let data = b"\xFF\xFF\xFF\xFFgetserversResponse\\\xC0\x00\x02\x01\x6D\x38\\\xC6\x33\x64\x02\x6D\x39\\\xCB\x00\x71\x03\x6D\x3A";
    assert_eq!(
        getserversresponse_message(data),
        Ok((
            &b""[..],
            GetServersResponseMessage::new(
                vec![
                    SocketAddrV4::new(Ipv4Addr::new(192, 0, 2, 1), 27960),
                    SocketAddrV4::new(Ipv4Addr::new(198, 51, 100, 2), 27961),
                    SocketAddrV4::new(Ipv4Addr::new(203, 0, 113, 3), 27962),
                ],
                false
            )
        ))
    );
    let data = b"\xFF\xFF\xFF\xFFgetserversResponse\\\x01\x02\x03\x04\x08\x00\\EOT\0\0\0";
    assert_eq!(
        getserversresponse_message(data),
        Ok((
            &b""[..],
            GetServersResponseMessage::new(
                vec![SocketAddrV4::new(Ipv4Addr::new(1, 2, 3, 4), 2048)],
                true
            )
        ))
    );
}

#[test]
fn test_parsers_stay_within_every_prefix_of_a_datagram() {
    let datagrams: [&[u8]; 5] = [
        b"\xFF\xFF\xFF\xFFheartbeat DarkPlaces\n",
        b"\xFF\xFF\xFF\xFFgetinfo A_ch4Lleng3",
        b"\xFF\xFF\xFF\xFFinfoResponse\n\\sv_maxclients\\8\\clients\\0",
        b"\xFF\xFF\xFF\xFFgetservers qfusion 39 gametype=0 empty full",
        b"\xFF\xFF\xFF\xFFgetserversResponse\\\x01\x02\x03\x04\x08\x00\\EOT\0\0\0",
    ];
    fn left<'a, T>(r: Result<(&'a [u8], T), DeserializationError<&'a [u8]>>) -> &'a [u8] {
        match r {
            Ok((rest, _)) => rest,
            Err(DeserializationError::Nom(at, _)) => at,
            Err(DeserializationError::Dpmaster(at, _)) => at,
        }
    }
    for datagram in datagrams {
        for end in 0..=datagram.len() {
            let input = &datagram[..end];
            for rest in [
                left(heartbeat_message(input)),
                left(getinfo_message(input)),
                left(inforesponse_message(input)),
                left(getservers_message(input)),
                left(getserversresponse_message(input)),
            ] {
                assert!(input.ends_with(rest));
            }
        }
    }
}

#[test]
fn test_error_constructors() {
    let input = &b"rest"[..];
    assert_eq!(
        <DeserializationError<&[u8]> as ParseError<&[u8]>>::from_error_kind(input, SyntaxKind::Eof),
        DeserializationError::Nom(input, SyntaxKind::Eof)
    );
    assert_eq!(
        <DeserializationError<&[u8]> as ParseError<&[u8]>>::from_char(input, 'x'),
        DeserializationError::Nom(input, SyntaxKind::Char)
    );
    let first = <DeserializationError<&[u8]> as ParseError<&[u8]>>::from_dpmaster_error_kind(
        input,
        ErrorKind::MessagePrefix,
    );
    assert_eq!(first, DeserializationError::Dpmaster(input, ErrorKind::MessagePrefix));
    let other = &b"other"[..];
    let kept = DeserializationError::append(other, SyntaxKind::Many1, first);
    let kept = DeserializationError::append_dpmaster(other, ErrorKind::MessagePrefix, kept);
    let kept = DeserializationError::add_context(other, "section", kept);
    assert_eq!(kept, DeserializationError::Dpmaster(input, ErrorKind::MessagePrefix));
    assert_eq!(
        DeserializationError::from_external_error(input, SyntaxKind::MapRes, "cause"),
        DeserializationError::Nom(input, SyntaxKind::MapRes)
    );

    let verbose = VerboseError::from_char(input, 'x');
    let verbose = VerboseError::append(other, SyntaxKind::Many1, verbose);
    let verbose = VerboseError::append_dpmaster(other, ErrorKind::MessagePrefix, verbose);
    let verbose = VerboseError::add_context(other, "section", verbose);
    assert_eq!(
        verbose,
        VerboseError {
            errors: vec![
                (input, VerboseErrorKind::Char('x')),
                (other, VerboseErrorKind::Nom(SyntaxKind::Many1)),
                (other, VerboseErrorKind::Dpmaster(ErrorKind::MessagePrefix)),
                (other, VerboseErrorKind::Context("section")),
            ]
        }
    );
    assert_eq!(
        VerboseError::from_dpmaster_error_kind(input, ErrorKind::MessagePrefix),
        VerboseError {
            errors: vec![(input, VerboseErrorKind::Dpmaster(ErrorKind::MessagePrefix))]
        }
    );
}

#[test]
fn test_verbose_error_to_text() {
    let error = VerboseError {
        errors: vec![
            ("hurz", VerboseErrorKind::Nom(SyntaxKind::Tag)),
            ("hurz", VerboseErrorKind::Dpmaster(ErrorKind::MessagePrefix)),
            ("hurz", VerboseErrorKind::Context("message prefix")),
            ("z", VerboseErrorKind::Char('x')),
        ],
    };
    assert_eq!(
        error.to_text(),
        "Parse error:\nTag at: hurz\nMessagePrefix at: hurz\nin section 'message prefix', at: hurz\nexpected 'x' at: z\n"
    );
    let none: VerboseError<&str> = VerboseError { errors: vec![] };
    assert_eq!(none.to_text(), "Parse error:\n");
    for (kind, name) in [
        (SyntaxKind::Tag, "Tag"),
        (SyntaxKind::MapRes, "MapRes"),
        (SyntaxKind::TakeWhile1, "TakeWhile1"),
        (SyntaxKind::Eof, "Eof"),
        (SyntaxKind::Char, "Char"),
        (SyntaxKind::Many1, "Many1"),
        (SyntaxKind::ManyTill, "ManyTill"),
    ] {
        let error = VerboseError {
            errors: vec![("", VerboseErrorKind::Nom(kind))],
        };
        assert_eq!(error.to_text(), format!("Parse error:\n{} at: \n", name));
        assert_eq!(format!("{:?}", kind), name);
    }
}
