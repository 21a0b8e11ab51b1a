//! Server-side DTLS handshake core: the handshake message cache, the cookie
//! exchange of the first flights, and the packets they emit.

pub mod alert;
pub mod cache;
pub mod error;
pub mod flight;
pub mod handshake;
pub mod pull;
pub mod record;
pub mod state;
