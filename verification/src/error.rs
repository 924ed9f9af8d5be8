//! The library's error type and its mapping to process exit codes.

use vstd::prelude::*;
use vstd::string::StringExecFns;

verus! {

/// Everything that can go wrong in wallet and configuration handling.
/// Errors raised by outside code are carried as their messages.
#[derive(Debug, Clone)]
pub enum Error {
    /// An input/output failure, carried as its message.
    Io(String),
    /// A JSON failure, carried as its message.
    Json(String),
    /// A TOML serialization failure, carried as its message.
    TomlSerialize(String),
    /// A TOML deserialization failure, carried as its message.
    TomlDeserialize(String),
    /// A wallet operation failed.
    Wallet(String),
    /// A configuration operation failed.
    Config(String),
    /// A wallet already exists at the named path.
    WalletExists(String),
    /// No wallet was found at the named path.
    WalletNotFound(String),
    /// The password does not decrypt the keystore.
    InvalidPassword,
    /// A required configuration value is absent.
    MissingConfig(String),
    /// A caller-supplied argument is invalid.
    InvalidArgument(String),
}

impl Error {
    /// The process exit code for this error.
    pub fn exit_code(&self) -> (code: i32)
        ensures
            code == match self {
                Error::MissingConfig(_) => 10int,
                Error::Config(_) => 11int,
                Error::WalletNotFound(_) => 12int,
                Error::InvalidArgument(_) => 20int,
                _ => 1int,
            },
    {
        match self {
            Error::MissingConfig(_) => 10,
            Error::Config(_) => 11,
            Error::WalletNotFound(_) => 12,
            Error::InvalidArgument(_) => 20,
            _ => 1,
        }
    }

    /// A human-readable description: a fixed prefix naming the error
    /// class, followed by the carried message.
    pub fn message(&self) -> (r: String)
        ensures
            r@ == match self {
                Error::Io(m) => "IO error: "@ + m@,
                Error::Json(m) => "JSON error: "@ + m@,
                Error::TomlSerialize(m) => "TOML serialization error: "@ + m@,
                Error::TomlDeserialize(m) => "TOML deserialization error: "@ + m@,
                Error::Wallet(m) => "Wallet error: "@ + m@,
                Error::Config(m) => "Configuration error: "@ + m@,
                Error::WalletExists(m) => "Wallet already exists at "@ + m@,
                Error::WalletNotFound(m) => "Wallet not found at "@ + m@,
                Error::InvalidPassword => "Invalid password"@,
                Error::MissingConfig(m) => "Missing required configuration: "@ + m@,
                Error::InvalidArgument(m) => "Invalid argument: "@ + m@,
            },
    {
        match self {
            Error::Io(m) => String::from_str("IO error: ").concat(m.as_str()),
            Error::Json(m) => String::from_str("JSON error: ").concat(m.as_str()),
            Error::TomlSerialize(m) => String::from_str("TOML serialization error: ").concat(
                m.as_str(),
            ),
            Error::TomlDeserialize(m) => String::from_str("TOML deserialization error: ").concat(
                m.as_str(),
            ),
            Error::Wallet(m) => String::from_str("Wallet error: ").concat(m.as_str()),
            Error::Config(m) => String::from_str("Configuration error: ").concat(m.as_str()),
            Error::WalletExists(m) => String::from_str("Wallet already exists at ").concat(
                m.as_str(),
            ),
            Error::WalletNotFound(m) => String::from_str("Wallet not found at ").concat(m.as_str()),
            Error::InvalidPassword => String::from_str("Invalid password"),
            Error::MissingConfig(m) => String::from_str("Missing required configuration: ").concat(
                m.as_str(),
            ),
            Error::InvalidArgument(m) => String::from_str("Invalid argument: ").concat(m.as_str()),
        }
    }
}

} // verus!
