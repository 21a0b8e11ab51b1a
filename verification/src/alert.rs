//! Alerts: what a flight tells the peer when a handshake cannot go on.

use vstd::prelude::*;

verus! {

/// How severe an alert is.
#[derive(Clone, Copy, Debug, PartialEq, Eq, Structural)]
pub enum AlertLevel {
    /// The connection may continue.
    Warning,
    /// The connection must be torn down.
    Fatal,
}

/// Why an alert was raised.
#[derive(Clone, Copy, Debug, PartialEq, Eq, Structural)]
pub enum AlertDescription {
    CloseNotify,
    UnexpectedMessage,
    BadRecordMac,
    DecryptionFailed,
    RecordOverflow,
    DecompressionFailure,
    HandshakeFailure,
    NoCertificate,
    BadCertificate,
    UnsupportedCertificate,
    CertificateRevoked,
    CertificateExpired,
    CertificateUnknown,
    IllegalParameter,
    UnknownCa,
    AccessDenied,
    DecodeError,
    DecryptError,
    ExportRestriction,
    ProtocolVersion,
    InsufficientSecurity,
    InternalError,
    UserCanceled,
    NoRenegotiation,
    UnsupportedExtension,
}

/// A protocol-level signal for the peer: a severity and a reason.
#[derive(Clone, Copy, Debug, PartialEq, Eq, Structural)]
pub struct Alert {
    pub level: AlertLevel,
    pub description: AlertDescription,
}

impl Alert {
    /// The fatal alert with the given reason.
    pub open spec fn fatal_spec(description: AlertDescription) -> Alert {
        Alert { level: AlertLevel::Fatal, description }
    }

    /// Builds the fatal alert with the given reason.
    #[verifier::when_used_as_spec(fatal_spec)]
    pub fn fatal(description: AlertDescription) -> (alert: Alert)
        ensures
            alert == Alert::fatal_spec(description),
    {
        Alert { level: AlertLevel::Fatal, description }
    }
}

} // verus!
