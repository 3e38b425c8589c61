//! The subscription side of Media over QUIC Transport: the messages about subscriptions, the two
//! ends of a subscription, and the playing of a track that several relays send at once.
pub mod coding;
pub mod config;
pub mod data;
pub mod media;
pub mod message;
pub mod multipath;
pub mod serve;
pub mod session;
pub mod smartout;
pub mod table;
pub mod text;
pub mod watch;
