//! Protocol messages and the value types they are made of.
//!
//! A game server registers with the master server by three messages:
//! [`HeartbeatMessage`], [`GetInfoMessage`], [`InfoResponseMessage`]. A game
//! client queries the master server by [`GetServersMessage`] and is answered
//! by [`GetServersResponseMessage`]; [`GetServersExtMessage`] and
//! [`GetServersExtResponseMessage`] are their IPv6-enabled variants.
//!
//! Every type has a view, its mathematical model: a byte string is a
//! `Seq<u8>`, a message is a record of the views of its fields.
use crate::error::{EmptyError, InvalidByteError, InvalidChallengeError, ProtocolError};
use crate::grammar::{BACKSLASH, SPACE};
use crate::net::{SocketAddr, SocketAddrV4};
pub use crate::info::Info;
use crate::ordered::Entry;
use crate::search::{has_neither, is_first_of_either, memchr2};
use vstd::prelude::*;
use vstd::slice::slice_to_vec;
use vstd::string::StringSliceAdditionalSpecFns;

verus! {

/// Protocol number, as in a `getservers` message.
pub type ProtocolNumber = u32;

/// Current number of clients on a game server.
pub type ClientsNumber = u32;

/// Maximum number of clients on a game server.
pub type MaxClientsNumber = std::num::NonZeroU32;

/// The name of the protocol that heartbeats announce by default, `DarkPlaces`.
pub const DARKPLACES: [u8; 10] = [
    'D' as u8, 'a' as u8, 'r' as u8, 'k' as u8, 'P' as u8, 'l' as u8, 'a' as u8, 'c' as u8,
    'e' as u8, 's' as u8,
];

/// The view of an optional value.
pub open spec fn view_of<T: View>(value: Option<T>) -> Option<T::V> {
    match value {
        Some(inner) => Some(inner@),
        None => None,
    }
}

/// The view of an optional reference.
pub open spec fn view_of_ref<T: View>(value: Option<&T>) -> Option<T::V> {
    match value {
        Some(inner) => Some(inner@),
        None => None,
    }
}

/// Whether `chr` is a printable ASCII character, space excluded.
pub open spec fn spec_is_ascii_printable(chr: u8) -> bool {
    33 <= chr <= 126
}

/// Whether `chr` is a printable ASCII character, space excluded.
#[verifier::when_used_as_spec(spec_is_ascii_printable)]
pub fn is_ascii_printable(chr: u8) -> (r: bool)
    ensures
        r == spec_is_ascii_printable(chr),
{
    chr >= 33 && chr <= 126
}

/// Whether a challenge may hold `byte`: printable ASCII other than `\`, `/`,
/// `;`, `"` and `%`.
pub open spec fn is_challenge_byte(byte: u8) -> bool {
    &&& spec_is_ascii_printable(byte)
    &&& byte != BACKSLASH
    &&& byte != '/' as u8
    &&& byte != ';' as u8
    &&& byte != '"' as u8
    &&& byte != '%' as u8
}

/// Whether `bytes` are a challenge: at least one byte, each one admitted.
pub open spec fn is_challenge(bytes: Seq<u8>) -> bool {
    &&& bytes.len() > 0
    &&& forall|i: int| 0 <= i < bytes.len() ==> is_challenge_byte(#[trigger] bytes[i])
}

/// Whether `bytes` are a game name: no NUL byte and no space.
pub open spec fn is_game_name(bytes: Seq<u8>) -> bool {
    has_neither(bytes, 0, SPACE)
}

fn challenge_byte(byte: u8) -> (r: bool)
    ensures
        r == is_challenge_byte(byte),
{
    is_ascii_printable(byte) && byte != BACKSLASH && byte != '/' as u8 && byte != ';' as u8 && byte
        != '"' as u8 && byte != '%' as u8
}

/// "Password" that authenticates the `getinfo` → `infoResponse` exchange.
///
/// Holds at least one byte; every byte satisfies [`is_challenge_byte`].
#[derive(Debug, PartialEq, Eq)]
pub struct Challenge(Vec<u8>);

impl View for Challenge {
    type V = Seq<u8>;

    closed spec fn view(&self) -> Seq<u8> {
        self.0@
    }
}

impl Challenge {
    #[verifier::type_invariant]
    spec fn well_formed(self) -> bool {
        is_challenge(self.0@)
    }

    /// Makes a challenge of `bytes`, or says why they are none: they are
    /// empty, or the first byte that is not admitted stands at the offset
    /// that the error carries.
    pub fn new(bytes: Vec<u8>) -> (r: Result<Self, InvalidChallengeError>)
        ensures
            match r {
                Ok(challenge) => is_challenge(bytes@) && challenge@ == bytes@,
                Err(InvalidChallengeError::Empty(_)) => bytes@.len() == 0,
                Err(InvalidChallengeError::InvalidByte(e)) => {
                    &&& e.spec_bytes() == bytes@
                    &&& e.spec_offset() < bytes@.len()
                    &&& !is_challenge_byte(bytes@[e.spec_offset() as int])
                    &&& forall|j: int|
                        0 <= j < e.spec_offset() ==> is_challenge_byte(#[trigger] bytes@[j])
                },
            },
    {
        if bytes.len() == 0 {
            return Err(InvalidChallengeError::Empty(EmptyError));
        }
        let mut offset: usize = 0;
        while offset < bytes.len()
            invariant
                0 <= offset <= bytes@.len(),
                forall|j: int| 0 <= j < offset ==> is_challenge_byte(#[trigger] bytes@[j]),
            decreases bytes@.len() - offset,
        {
            if !challenge_byte(bytes[offset]) {
                let error = InvalidByteError::new(offset, bytes);
                return Err(InvalidChallengeError::InvalidByte(error));
            }
            offset += 1;
        }
        Ok(Challenge(bytes))
    }

    /// The bytes of the challenge.
    pub fn as_bytes(&self) -> (bytes: &[u8])
        ensures
            bytes@ == self@,
            is_challenge(self@),
    {
        proof {
            use_type_invariant(self);
        }
        self.0.as_slice()
    }
}

/// The view of a [`GetInfoMessage`].
pub struct GetInfoMessageView {
    pub challenge: Seq<u8>,
}

/// `getinfo` message: the master server's answer to a heartbeat.
#[derive(Debug, PartialEq, Eq)]
pub struct GetInfoMessage {
    challenge: Challenge,
}

impl View for GetInfoMessage {
    type V = GetInfoMessageView;

    closed spec fn view(&self) -> GetInfoMessageView {
        GetInfoMessageView { challenge: self.challenge@ }
    }
}

impl GetInfoMessage {
    /// A `getinfo` message with `challenge`.
    pub fn new(challenge: Challenge) -> (message: Self)
        ensures
            message@ == (GetInfoMessageView { challenge: challenge@ }),
    {
        GetInfoMessage { challenge }
    }

    /// The challenge of the message.
    pub fn challenge(&self) -> (challenge: &Challenge)
        ensures
            challenge@ == self@.challenge,
    {
        &self.challenge
    }
}

/// Key of an [`Info`] key-value pair.
#[derive(Debug, PartialEq, Eq, Hash)]
pub struct InfoKey(Vec<u8>);

impl View for InfoKey {
    type V = Seq<u8>;

    closed spec fn view(&self) -> Seq<u8> {
        self.0@
    }
}

impl InfoKey {
    /// Makes a key of `bytes`; every byte string is taken.
    pub fn new(bytes: Vec<u8>) -> (r: Result<Self, ProtocolError>)
        ensures
            r is Ok,
            r->Ok_0@ == bytes@,
    {
        Ok(InfoKey(bytes))
    }

    /// The bytes of the key.
    pub fn as_bytes(&self) -> (bytes: &[u8])
        ensures
            bytes@ == self@,
    {
        self.0.as_slice()
    }

    /// The bytes of the key, the key given up.
    pub fn into_bytes(self) -> (bytes: Vec<u8>)
        ensures
            bytes@ == self@,
    {
        self.0
    }
}

/// Value of an [`Info`] key-value pair.
#[derive(Debug, PartialEq, Eq)]
pub struct InfoValue(Vec<u8>);

impl View for InfoValue {
    type V = Seq<u8>;

    closed spec fn view(&self) -> Seq<u8> {
        self.0@
    }
}

impl InfoValue {
    /// Makes a value of `bytes`; every byte string is taken.
    pub fn new(bytes: Vec<u8>) -> (r: Result<Self, ProtocolError>)
        ensures
            r is Ok,
            r->Ok_0@ == bytes@,
    {
        Ok(InfoValue(bytes))
    }

    /// The bytes of the value.
    pub fn as_bytes(&self) -> (bytes: &[u8])
        ensures
            bytes@ == self@,
    {
        self.0.as_slice()
    }

    /// The bytes of the value, the value given up.
    pub fn into_bytes(self) -> (bytes: Vec<u8>)
        ensures
            bytes@ == self@,
    {
        self.0
    }
}

/// The view of an [`InfoResponseMessage`].
pub struct InfoResponseMessageView {
    pub info: Seq<Entry>,
}

/// `infoResponse` message: a game server's answer to `getinfo`.
#[derive(Debug, PartialEq, Eq)]
pub struct InfoResponseMessage {
    info: Info,
}

impl View for InfoResponseMessage {
    type V = InfoResponseMessageView;

    closed spec fn view(&self) -> InfoResponseMessageView {
        InfoResponseMessageView { info: self.info@ }
    }
}

impl InfoResponseMessage {
    /// An `infoResponse` message with `info`.
    pub fn new(info: Info) -> (message: Self)
        ensures
            message@ == (InfoResponseMessageView { info: info@ }),
    {
        InfoResponseMessage { info }
    }

    /// The info of the message.
    pub fn info(&self) -> (info: &Info)
        ensures
            info@ == self@.info,
    {
        &self.info
    }
}

/// Protocol name, as in a heartbeat.
#[derive(Debug, PartialEq, Eq)]
pub struct ProtocolName(Vec<u8>);

impl View for ProtocolName {
    type V = Seq<u8>;

    closed spec fn view(&self) -> Seq<u8> {
        self.0@
    }
}

impl ProtocolName {
    /// Makes a protocol name of `bytes`; every byte string is taken.
    pub fn new(bytes: Vec<u8>) -> (r: Result<Self, ProtocolError>)
        ensures
            r is Ok,
            r->Ok_0@ == bytes@,
    {
        Ok(ProtocolName(bytes))
    }

    /// The bytes of the name.
    pub fn as_bytes(&self) -> (bytes: &[u8])
        ensures
            bytes@ == self@,
    {
        self.0.as_slice()
    }
}

impl Default for ProtocolName {
    /// The protocol name `DarkPlaces`.
    fn default() -> (name: Self)
        ensures
            name@ == DARKPLACES@,
    {
        ProtocolName(slice_to_vec(&DARKPLACES))
    }
}

/// The view of a [`HeartbeatMessage`].
pub struct HeartbeatMessageView {
    pub protocol_name: Seq<u8>,
}

/// `heartbeat` message: a game server announces itself to the master server.
#[derive(Debug, PartialEq, Eq)]
pub struct HeartbeatMessage {
    protocol_name: ProtocolName,
}

impl View for HeartbeatMessage {
    type V = HeartbeatMessageView;

    closed spec fn view(&self) -> HeartbeatMessageView {
        HeartbeatMessageView { protocol_name: self.protocol_name@ }
    }
}

impl HeartbeatMessage {
    /// A heartbeat for `protocol_name`.
    pub fn new(protocol_name: ProtocolName) -> (message: Self)
        ensures
            message@ == (HeartbeatMessageView { protocol_name: protocol_name@ }),
    {
        HeartbeatMessage { protocol_name }
    }

    /// The protocol name of the message.
    pub fn protocol_name(&self) -> (protocol_name: &ProtocolName)
        ensures
            protocol_name@ == self@.protocol_name,
    {
        &self.protocol_name
    }
}

/// Game name, as in a `getservers` message. Holds no NUL byte and no space.
#[derive(Debug, PartialEq, Eq)]
pub struct GameName(Vec<u8>);

impl Clone for GameName {
    /// A game name of the same bytes.
    fn clone(&self) -> (name: Self)
        ensures
            name@ == self@,
    {
        proof {
            use_type_invariant(self);
        }
        GameName(slice_to_vec(self.0.as_slice()))
    }
}

impl View for GameName {
    type V = Seq<u8>;

    closed spec fn view(&self) -> Seq<u8> {
        self.0@
    }
}

impl GameName {
    #[verifier::type_invariant]
    spec fn well_formed(self) -> bool {
        is_game_name(self.0@)
    }

    /// Makes a game name of `bytes`, or reports the first NUL byte or space
    /// among them with its offset.
    pub fn new(bytes: Vec<u8>) -> (r: Result<Self, ProtocolError>)
        ensures
            match r {
                Ok(name) => is_game_name(bytes@) && name@ == bytes@,
                Err(ProtocolError::InvalidGameName { byte, offset }) => {
                    &&& is_first_of_either(bytes@, 0, SPACE, offset as int)
                    &&& byte == bytes@[offset as int]
                },
                Err(_) => false,
            },
    {
        match memchr2(0, SPACE, bytes.as_slice()) {
            Some(i) => Err(ProtocolError::InvalidGameName { offset: i, byte: bytes[i] }),
            None => Ok(GameName(bytes)),
        }
    }

    /// The bytes of the name.
    pub fn as_bytes(&self) -> (bytes: &[u8])
        ensures
            bytes@ == self@,
            is_game_name(self@),
    {
        proof {
            use_type_invariant(self);
        }
        self.0.as_slice()
    }
}

impl std::str::FromStr for GameName {
    type Err = ProtocolError;

    /// Makes a game name of the bytes of `s`, as [`GameName::new`] does.
    fn from_str(s: &str) -> (r: Result<Self, ProtocolError>)
        ensures
            r is Ok <==> is_game_name(s.spec_bytes()),
            r matches Ok(name) ==> name@ == s.spec_bytes(),
    {
        GameName::new(slice_to_vec(s.as_bytes()))
    }
}

/// Game type, as in the filter of a `getservers` message.
#[derive(Debug, PartialEq, Eq)]
pub struct GameType(Vec<u8>);

impl std::str::FromStr for GameType {
    type Err = ProtocolError;

    /// Makes a game type of the bytes of `s`, as [`GameType::new`] does.
    fn from_str(s: &str) -> (r: Result<Self, ProtocolError>)
        ensures
            r matches Ok(gametype) && gametype@ == s.spec_bytes(),
    {
        GameType::new(slice_to_vec(s.as_bytes()))
    }
}

impl Clone for GameType {
    /// A game type of the same bytes.
    fn clone(&self) -> (gametype: Self)
        ensures
            gametype@ == self@,
    {
        GameType(slice_to_vec(self.0.as_slice()))
    }
}

impl View for GameType {
    type V = Seq<u8>;

    closed spec fn view(&self) -> Seq<u8> {
        self.0@
    }
}

impl GameType {
    /// Makes a game type of `bytes`; every byte string is taken.
    pub fn new(bytes: Vec<u8>) -> (r: Result<Self, ProtocolError>)
        ensures
            r is Ok,
            r->Ok_0@ == bytes@,
    {
        Ok(GameType(bytes))
    }

    /// The bytes of the game type.
    pub fn as_bytes(&self) -> (bytes: &[u8])
        ensures
            bytes@ == self@,
    {
        self.0.as_slice()
    }
}

/// The view of a [`FilterOption`].
pub enum FilterOptionView {
    /// `gametype=X`
    GameType(Seq<u8>),
    /// `empty`
    Empty,
    /// `full`
    Full,
}

/// One filter option of a `getservers` message.
#[derive(Debug, PartialEq, Eq)]
pub enum FilterOption {
    /// `gametype=X`
    GameType(GameType),
    /// `empty`
    Empty,
    /// `full`
    Full,
}

impl View for FilterOption {
    type V = FilterOptionView;

    open spec fn view(&self) -> FilterOptionView {
        match *self {
            FilterOption::GameType(gametype) => FilterOptionView::GameType(gametype@),
            FilterOption::Empty => FilterOptionView::Empty,
            FilterOption::Full => FilterOptionView::Full,
        }
    }
}

/// The view of [`FilterOptions`].
pub struct FilterOptionsView {
    pub gametype: Option<Seq<u8>>,
    pub empty: bool,
    pub full: bool,
}

/// Filter options of a `getservers` message.
#[derive(Debug, PartialEq, Eq)]
pub struct FilterOptions {
    gametype: Option<GameType>,
    empty: bool,
    full: bool,
}

impl View for FilterOptions {
    type V = FilterOptionsView;

    closed spec fn view(&self) -> FilterOptionsView {
        FilterOptionsView {
            gametype: view_of(self.gametype),
            empty: self.empty,
            full: self.full,
        }
    }
}

impl FilterOptions {
    /// Filter options for `gametype`, and whether empty and full servers are asked for.
    pub fn new(gametype: Option<GameType>, empty: bool, full: bool) -> (options: Self)
        ensures
            options@ == (FilterOptionsView { gametype: view_of(gametype), empty, full }),
    {
        FilterOptions { gametype, empty, full }
    }

    /// The `gametype=` option.
    pub fn gametype(&self) -> (gametype: Option<&GameType>)
        ensures
            view_of_ref(gametype) == self@.gametype,
    {
        self.gametype.as_ref()
    }

    /// Whether empty servers are asked for.
    pub fn empty(&self) -> (empty: bool)
        ensures
            empty == self@.empty,
    {
        self.empty
    }

    /// Whether full servers are asked for.
    pub fn full(&self) -> (full: bool)
        ensures
            full == self@.full,
    {
        self.full
    }
}

/// The view of a [`GetServersMessage`].
pub struct GetServersMessageView {
    pub game_name: Option<Seq<u8>>,
    pub protocol_number: u32,
    pub filter_options: FilterOptionsView,
}

/// `getservers` message: a game client asks the master server for servers.
#[derive(Debug, PartialEq, Eq)]
pub struct GetServersMessage {
    game_name: Option<GameName>,
    protocol_number: ProtocolNumber,
    filter_options: FilterOptions,
}

impl View for GetServersMessage {
    type V = GetServersMessageView;

    closed spec fn view(&self) -> GetServersMessageView {
        GetServersMessageView {
            game_name: view_of(self.game_name),
            protocol_number: self.protocol_number,
            filter_options: self.filter_options@,
        }
    }
}

impl GetServersMessage {
    /// A `getservers` message for `game_name`, `protocol_number` and `filter_options`.
    pub fn new(
        game_name: Option<GameName>,
        protocol_number: ProtocolNumber,
        filter_options: FilterOptions,
    ) -> (message: Self)
        ensures
            message@ == (GetServersMessageView {
                game_name: view_of(game_name),
                protocol_number,
                filter_options: filter_options@,
            }),
    {
        GetServersMessage { game_name, protocol_number, filter_options }
    }

    /// The game name of the message.
    pub fn game_name(&self) -> (game_name: Option<&GameName>)
        ensures
            view_of_ref(game_name) == self@.game_name,
    {
        self.game_name.as_ref()
    }

    /// The protocol number of the message.
    pub fn protocol_number(&self) -> (protocol_number: ProtocolNumber)
        ensures
            protocol_number == self@.protocol_number,
    {
        self.protocol_number
    }

    /// The filter options of the message.
    pub fn filter_options(&self) -> (filter_options: &FilterOptions)
        ensures
            filter_options@ == self@.filter_options,
    {
        &self.filter_options
    }
}

/// The view of a [`GetServersResponseMessage`].
pub struct GetServersResponseMessageView {
    pub servers: Seq<SocketAddrV4>,
    pub eot: bool,
}

/// `getserversResponse` message: the master server lists servers. `eot`
/// marks the last message of an answer.
#[derive(Debug, PartialEq, Eq)]
pub struct GetServersResponseMessage {
    servers: Vec<SocketAddrV4>,
    eot: bool,
}

impl View for GetServersResponseMessage {
    type V = GetServersResponseMessageView;

    closed spec fn view(&self) -> GetServersResponseMessageView {
        GetServersResponseMessageView { servers: self.servers@, eot: self.eot }
    }
}

impl GetServersResponseMessage {
    /// A `getserversResponse` message with `servers` and the `eot` flag.
    pub fn new(servers: Vec<SocketAddrV4>, eot: bool) -> (message: Self)
        ensures
            message@ == (GetServersResponseMessageView { servers: servers@, eot }),
    {
        GetServersResponseMessage { servers, eot }
    }

    /// The server addresses of the message, in order.
    pub fn servers(&self) -> (servers: &[SocketAddrV4])
        ensures
            servers@ == self@.servers,
    {
        self.servers.as_slice()
    }

    /// The end-of-transmission flag.
    pub fn eot(&self) -> (eot: bool)
        ensures
            eot == self@.eot,
    {
        self.eot
    }
}

/// The view of [`FilterExtOptions`].
pub struct FilterExtOptionsView {
    pub gametype: Option<Seq<u8>>,
    pub empty: bool,
    pub full: bool,
    pub ipv4: bool,
    pub ipv6: bool,
}

/// Filter options of a `getserversExt` message.
#[derive(Debug, PartialEq, Eq)]
pub struct FilterExtOptions {
    gametype: Option<GameType>,
    empty: bool,
    full: bool,
    ipv4: bool,
    ipv6: bool,
}

impl View for FilterExtOptions {
    type V = FilterExtOptionsView;

    closed spec fn view(&self) -> FilterExtOptionsView {
        FilterExtOptionsView {
            gametype: view_of(self.gametype),
            empty: self.empty,
            full: self.full,
            ipv4: self.ipv4,
            ipv6: self.ipv6,
        }
    }
}

impl FilterExtOptions {
    /// Filter options for `gametype`, and whether empty, full, IPv4 and IPv6
    /// servers are asked for.
    pub fn new(
        gametype: Option<GameType>,
        empty: bool,
        full: bool,
        ipv4: bool,
        ipv6: bool,
    ) -> (options: Self)
        ensures
            options@ == (FilterExtOptionsView {
                gametype: view_of(gametype),
                empty,
                full,
                ipv4,
                ipv6,
            }),
    {
        FilterExtOptions { gametype, empty, full, ipv4, ipv6 }
    }

    /// The `gametype=` option.
    pub fn gametype(&self) -> (gametype: Option<&GameType>)
        ensures
            view_of_ref(gametype) == self@.gametype,
    {
        self.gametype.as_ref()
    }

    /// Whether empty servers are asked for.
    pub fn empty(&self) -> (empty: bool)
        ensures
            empty == self@.empty,
    {
        self.empty
    }

    /// Whether full servers are asked for.
    pub fn full(&self) -> (full: bool)
        ensures
            full == self@.full,
    {
        self.full
    }

    /// Whether IPv4 servers are asked for.
    pub fn ipv4(&self) -> (ipv4: bool)
        ensures
            ipv4 == self@.ipv4,
    {
        self.ipv4
    }

    /// Whether IPv6 servers are asked for.
    pub fn ipv6(&self) -> (ipv6: bool)
        ensures
            ipv6 == self@.ipv6,
    {
        self.ipv6
    }
}

/// The view of a [`GetServersExtMessage`].
pub struct GetServersExtMessageView {
    pub game_name: Seq<u8>,
    pub protocol_number: u32,
    pub filter_options: FilterExtOptionsView,
}

/// `getserversExt` message: the IPv6-enabled `getservers`.
#[derive(Debug, PartialEq, Eq)]
pub struct GetServersExtMessage {
    game_name: GameName,
    protocol_number: ProtocolNumber,
    filter_options: FilterExtOptions,
}

impl View for GetServersExtMessage {
    type V = GetServersExtMessageView;

    closed spec fn view(&self) -> GetServersExtMessageView {
        GetServersExtMessageView {
            game_name: self.game_name@,
            protocol_number: self.protocol_number,
            filter_options: self.filter_options@,
        }
    }
}

impl GetServersExtMessage {
    /// A `getserversExt` message for `game_name`, `protocol_number` and `filter_options`.
    pub fn new(
        game_name: GameName,
        protocol_number: ProtocolNumber,
        filter_options: FilterExtOptions,
    ) -> (message: Self)
        ensures
            message@ == (GetServersExtMessageView {
                game_name: game_name@,
                protocol_number,
                filter_options: filter_options@,
            }),
    {
        GetServersExtMessage { game_name, protocol_number, filter_options }
    }

    /// The game name of the message.
    pub fn game_name(&self) -> (game_name: &GameName)
        ensures
            game_name@ == self@.game_name,
    {
        &self.game_name
    }

    /// The protocol number of the message.
    pub fn protocol_number(&self) -> (protocol_number: ProtocolNumber)
        ensures
            protocol_number == self@.protocol_number,
    {
        self.protocol_number
    }

    /// The filter options of the message.
    pub fn filter_options(&self) -> (filter_options: &FilterExtOptions)
        ensures
            filter_options@ == self@.filter_options,
    {
        &self.filter_options
    }
}

/// The view of a [`GetServersExtResponseMessage`].
pub struct GetServersExtResponseMessageView {
    pub servers: Seq<SocketAddr>,
    pub eot: bool,
}

/// `getserversExtResponse` message: the IPv6-enabled `getserversResponse`.
#[derive(Debug, PartialEq, Eq)]
pub struct GetServersExtResponseMessage {
    servers: Vec<SocketAddr>,
    eot: bool,
}

impl View for GetServersExtResponseMessage {
    type V = GetServersExtResponseMessageView;

    closed spec fn view(&self) -> GetServersExtResponseMessageView {
        GetServersExtResponseMessageView { servers: self.servers@, eot: self.eot }
    }
}

impl GetServersExtResponseMessage {
    /// A `getserversExtResponse` message with `servers` and the `eot` flag.
    pub fn new(servers: Vec<SocketAddr>, eot: bool) -> (message: Self)
        ensures
            message@ == (GetServersExtResponseMessageView { servers: servers@, eot }),
    {
        GetServersExtResponseMessage { servers, eot }
    }

    /// The server addresses of the message, in order.
    pub fn servers(&self) -> (servers: &[SocketAddr])
        ensures
            servers@ == self@.servers,
    {
        self.servers.as_slice()
    }

    /// The end-of-transmission flag.
    pub fn eot(&self) -> (eot: bool)
        ensures
            eot == self@.eot,
    {
        self.eot
    }
}

} // verus!
