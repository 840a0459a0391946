//! Sans-I/O wire codec for the `dpmaster` master-server protocol.
//!
//! Game servers register with a master server (`heartbeat`, `getinfo`,
//! `infoResponse`) and game clients query it (`getservers`,
//! `getserversResponse`). Every message is one UDP datagram: the four bytes
//! `FF FF FF FF`, an ASCII command token, and a command-specific payload.
//!
//! The crate holds the typed message model ([`messages`], [`info`], [`net`]),
//! the parser ([`deserializer`], over the scanning steps of [`lexer`] and the
//! numbers of [`decimal`]), the serializer ([`serializer`]), the error types
//! ([`error`], [`verbose`]) and a datagram framing adapter ([`codec`]).
//!
//! The wire format itself is written down once, as mathematical functions
//! over byte sequences, in [`grammar`]. The executable parser and serializer
//! are proved to compute exactly those functions; [`bounds`] proves that no
//! parser reads past its input, and [`laws`] that parsing undoes serializing.
//!
//! Proved elsewhere, and believed here: what `memchr::memchr2` finds
//! ([`search`]), what `nom::character::is_digit` and `is_newline` accept
//! ([`lexer`]), how an `indexmap::IndexMap` orders its entries ([`ordered`]),
//! what a `bytes::BytesMut` holds ([`codec`]), and that `String::push`
//! appends ([`verbose`]).
pub mod bounds;
pub mod codec;
pub mod decimal;
pub mod deserializer;
pub mod error;
pub mod grammar;
pub mod info;
pub mod laws;
pub mod lexer;
pub mod messages;
pub mod net;
pub mod ordered;
pub mod search;
pub mod serializer;
pub mod verbose;

pub use crate::error::ProtocolError;
pub use crate::messages::{
    Challenge, GameName, GameType, GetInfoMessage, GetServersExtResponseMessage,
    GetServersResponseMessage, HeartbeatMessage, Info, InfoKey, InfoResponseMessage, InfoValue,
    ProtocolName,
};
