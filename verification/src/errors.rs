use vstd::prelude::*;
use vstd::string::StringExecFns;

verus! {

/// The underlying enumeration mechanism failed; the cause is kept verbatim.
#[derive(Debug, PartialEq, Eq)]
pub struct DiscoveryError {
    pub message: String,
}

/// The fingerprint attribute collection was unavailable.
#[derive(Debug, PartialEq, Eq)]
pub struct HashingError {
    pub message: String,
}

/// The remote profile lookup failed; such a failure is never cached.
#[derive(Debug, PartialEq, Eq)]
pub struct EnrichmentError {
    pub message: String,
}

/// Why a registry sync could not be carried out.
#[derive(Debug, PartialEq, Eq)]
pub enum SyncError {
    /// Required configuration (the registry base URL) is missing.
    Config(String),
    /// The fingerprint could not be computed; surfaced verbatim.
    Fingerprint(HashingError),
    /// The identity list could not be enumerated; surfaced verbatim.
    Discovery(DiscoveryError),
    /// The request never produced an HTTP response.
    Transport(String),
    /// Reserved for application-level registry failures; a plain non-2xx
    /// response is reported as data instead, never as this variant.
    Server(String),
}

impl SyncError {
    /// The text a description of this error starts with, by variant.
    pub open spec fn describe_prefix(self) -> Seq<char> {
        match self {
            SyncError::Config(_) => "configuration error: "@,
            SyncError::Fingerprint(_) => "fingerprint error: "@,
            SyncError::Discovery(_) => "discovery error: "@,
            SyncError::Transport(_) => "transport error: "@,
            SyncError::Server(_) => "server error: "@,
        }
    }

    /// The message carried inside, whichever variant holds it.
    pub open spec fn carried_message(self) -> Seq<char> {
        match self {
            SyncError::Config(m) => m@,
            SyncError::Fingerprint(h) => h.message@,
            SyncError::Discovery(d) => d.message@,
            SyncError::Transport(m) => m@,
            SyncError::Server(m) => m@,
        }
    }

    /// A human-readable description: the variant's name and the carried
    /// message, exactly.
    pub fn describe(&self) -> (s: String)
        ensures
            s@ == self.describe_prefix() + self.carried_message(),
    {
        let mut s = match self {
            SyncError::Config(_) => String::from_str("configuration error: "),
            SyncError::Fingerprint(_) => String::from_str("fingerprint error: "),
            SyncError::Discovery(_) => String::from_str("discovery error: "),
            SyncError::Transport(_) => String::from_str("transport error: "),
            SyncError::Server(_) => String::from_str("server error: "),
        };
        match self {
            SyncError::Config(m) => s.append(m.as_str()),
            SyncError::Fingerprint(h) => s.append(h.message.as_str()),
            SyncError::Discovery(d) => s.append(d.message.as_str()),
            SyncError::Transport(m) => s.append(m.as_str()),
            SyncError::Server(m) => s.append(m.as_str()),
        }
        s
    }
}

} // verus!
