//! Local failures of the handshake core.

use vstd::prelude::*;

verus! {

/// What went wrong on this side of the connection.
#[derive(Clone, Copy, Debug, PartialEq, Eq, Structural)]
pub enum Error {
    /// The peer declared a protocol version other than the configured one.
    UnsupportedProtocolVersion,
    /// The peer echoed a cookie other than the one it was issued.
    CookieMismatch,
    /// A pull set names a mandatory message that has not arrived yet.
    MissingMandatoryMessage,
    /// The handshake cache holds as many entries as it was made for.
    CacheExhausted,
}

} // verus!
