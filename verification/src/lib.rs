//! The logic of a relay that passes lines of JSON between registered peers.
//!
//! A peer registers a name ([`relay::register`]), sends messages to other names or to all of them
//! ([`relay::route`]), and is taken out when its connection goes ([`relay::disconnect`]).
//! [`relay::handle_line`] does what a line asks for. Sockets, files, the environment and the clock
//! are left to the program around this library.
pub mod bind;
pub mod calls;
pub mod json;
pub mod laws;
pub mod limits;
pub mod message;
pub mod operator;
pub mod protocol;
pub mod registry;
pub mod relay;
pub mod request;
pub mod secret;
pub mod session;
pub mod settings;
pub mod table;
pub mod text;
pub mod tls;
