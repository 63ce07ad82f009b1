//! Session and broadcast coordination for a line-oriented multi-client chat
//! service: identities, channels, voice presence, the session table, admission
//! control and the command grammar.

pub mod text;
pub mod user;
pub mod auth;
pub mod channel;
pub mod voice;
pub mod session;
pub mod command;
pub mod router;
