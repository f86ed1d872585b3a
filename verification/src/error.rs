//! The errors that the protocol core reports.

use vstd::prelude::*;

verus! {

/// Why received bytes could not be turned into packets.
#[derive(Clone, Copy, Debug, PartialEq, Eq, Structural)]
pub enum DecodeError {
    /// A frame's length prefix does not end within five bytes, or does not
    /// fit in 32 bits.
    BadLength,
    /// An encrypted frame is shorter than the nonce it must start with.
    ShortPayload,
    /// The ciphertext did not authenticate under the configured key.
    Decrypt,
    /// The payload is not the encoding of a packet.
    Deserialize,
}

impl DecodeError {
    /// The text of `message`.
    pub open spec fn spec_message(&self) -> Seq<char> {
        match *self {
            DecodeError::BadLength => "Malformed frame length"@,
            DecodeError::ShortPayload => "Data too short for nonce"@,
            DecodeError::Decrypt => "Decryption failed"@,
            DecodeError::Deserialize => "Malformed packet payload"@,
        }
    }

    /// A short description for logs and messages.
    pub fn message(&self) -> (text: &'static str)
        ensures
            text@ == self.spec_message(),
    {
        match self {
            DecodeError::BadLength => "Malformed frame length",
            DecodeError::ShortPayload => "Data too short for nonce",
            DecodeError::Decrypt => "Decryption failed",
            DecodeError::Deserialize => "Malformed packet payload",
        }
    }
}

/// Why a codec could not be configured.
#[derive(Clone, Copy, Debug, PartialEq, Eq, Structural)]
pub enum ConfigError {
    /// The codec has an encryption key already.
    KeyAlreadySet,
    /// The codec has been used already: it has written a frame or received
    /// bytes.
    AlreadyStarted,
}

impl ConfigError {
    /// A short description for logs and messages.
    pub fn message(&self) -> (text: &'static str)
        ensures
            text@ == match *self {
                ConfigError::KeyAlreadySet => "Encryption is already configured"@,
                ConfigError::AlreadyStarted => "Encryption must be configured before first use"@,
            },
    {
        match self {
            ConfigError::KeyAlreadySet => "Encryption is already configured",
            ConfigError::AlreadyStarted => "Encryption must be configured before first use",
        }
    }
}

} // verus!
