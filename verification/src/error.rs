//! The errors of the tunnel core.

use vstd::prelude::*;
use vstd::string::*;

verus! {

/// Why pool configuration text was refused.
#[derive(Clone, Copy, Debug, PartialEq, Eq, Structural)]
pub enum ConfigFault {
    /// The subnet mask is larger than 30.
    MaskTooLarge,
    /// The text is neither an address nor `address/mask`.
    Malformed,
    /// The client configuration is too long for a frame.
    TooLong,
    /// The server's own address is a network, not a single host.
    NotAHost,
}

/// Why a handshake was refused.
#[derive(Clone, Copy, Debug, PartialEq, Eq, Structural)]
pub enum ProtocolFault {
    /// A CONFIG frame did not carry the CONFIG magic.
    BadConfigMagic,
    /// A CONNECT frame did not carry the CONNECT magic.
    BadConnectMagic,
    /// The frame's action code is neither CONFIG nor CONNECT.
    UnknownAction(u8),
    /// A CONFIG reply did not carry a client's configuration.
    BadConfig,
    /// The CONNECT echo came before any configuration.
    NotConfigured,
}

/// What a session was built without.
#[derive(Clone, Copy, Debug, PartialEq, Eq, Structural)]
pub enum MissingField {
    ServerAddress,
    Stream,
    Router,
}

/// Everything that can go wrong in the tunnel core. Each of these ends at
/// most the one session it occurs in.
#[derive(Clone, Copy, Debug, PartialEq, Eq, Structural)]
pub enum TunnelError {
    /// Bad magic or unknown action during the handshake.
    ProtocolError(ProtocolFault),
    /// The stream failed or closed before the handshake was over.
    IoError,
    /// The pool has no address left to lease.
    PoolExhausted,
    /// The pool's configuration is invalid.
    ConfigError(ConfigFault),
    /// The peer presented no usable identity.
    PeerIdentityMissing,
    /// A session was built without one of its mandatory parts.
    Incomplete(MissingField),
    /// Text that should name a route's address does not.
    InvalidAddress,
}

impl TunnelError {
    /// What `message` says of each error.
    pub open spec fn message_text(self) -> Seq<char> {
        match self {
            TunnelError::ProtocolError(ProtocolFault::BadConfigMagic) => "Invalid config magic"@,
            TunnelError::ProtocolError(ProtocolFault::BadConnectMagic) => "Invalid connect magic"@,
            TunnelError::ProtocolError(ProtocolFault::UnknownAction(_)) => "Unknown action"@,
            TunnelError::ProtocolError(ProtocolFault::BadConfig) => "Invalid client configuration"@,
            TunnelError::ProtocolError(ProtocolFault::NotConfigured) => {
                "Connected before configuration"@
            },
            TunnelError::IoError => "Stream closed or failed"@,
            TunnelError::PoolExhausted => "No ip left"@,
            TunnelError::ConfigError(ConfigFault::MaskTooLarge) => {
                "Network mask cannot be larger than 30"@
            },
            TunnelError::ConfigError(ConfigFault::Malformed) => "Not a valid network address"@,
            TunnelError::ConfigError(ConfigFault::TooLong) => "Client configuration too long"@,
            TunnelError::ConfigError(ConfigFault::NotAHost) => "Server address is not a host"@,
            TunnelError::PeerIdentityMissing => "No common name found"@,
            TunnelError::Incomplete(MissingField::ServerAddress) => "No server address"@,
            TunnelError::Incomplete(MissingField::Stream) => "No stream"@,
            TunnelError::Incomplete(MissingField::Router) => "No router"@,
            TunnelError::InvalidAddress => "Not a valid address"@,
        }
    }

    /// A short description for logs.
    pub fn message(&self) -> (r: &'static str)
        ensures
            r@ == self.message_text(),
    {
        match self {
            TunnelError::ProtocolError(ProtocolFault::BadConfigMagic) => "Invalid config magic",
            TunnelError::ProtocolError(ProtocolFault::BadConnectMagic) => "Invalid connect magic",
            TunnelError::ProtocolError(ProtocolFault::UnknownAction(_)) => "Unknown action",
            TunnelError::ProtocolError(ProtocolFault::BadConfig) => "Invalid client configuration",
            TunnelError::ProtocolError(ProtocolFault::NotConfigured) => {
                "Connected before configuration"
            },
            TunnelError::IoError => "Stream closed or failed",
            TunnelError::PoolExhausted => "No ip left",
            TunnelError::ConfigError(ConfigFault::MaskTooLarge) => {
                "Network mask cannot be larger than 30"
            },
            TunnelError::ConfigError(ConfigFault::Malformed) => "Not a valid network address",
            TunnelError::ConfigError(ConfigFault::TooLong) => "Client configuration too long",
            TunnelError::ConfigError(ConfigFault::NotAHost) => "Server address is not a host",
            TunnelError::PeerIdentityMissing => "No common name found",
            TunnelError::Incomplete(MissingField::ServerAddress) => "No server address",
            TunnelError::Incomplete(MissingField::Stream) => "No stream",
            TunnelError::Incomplete(MissingField::Router) => "No router",
            TunnelError::InvalidAddress => "Not a valid address",
        }
    }
}

} // verus!
