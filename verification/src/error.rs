//! Shared error types for Starbyte.
use vstd::prelude::*;

use crate::text::{decimal, hex_padded, push_decimal, push_hex};

verus! {

/// The `{:?}` form of a `std::path::Path` holding `path`: the text quoted, with what Rust's
/// debug formatting escapes escaped.
pub uninterp spec fn path_debug(path: Seq<char>) -> Seq<char>;

/// Writes `path` in the `{:?}` form of a `std::path::Path`.
///
/// Wraps `<Path as Debug>::fmt` (through `format!`). The result is named, not spelled out:
/// which characters it escapes follows Unicode tables in std.
#[verifier::external_body]
fn path_debug_text(path: &str) -> (r: String)
    ensures
        r@ == path_debug(path@),
{
    format!("{:?}", std::path::Path::new(path))
}

/// Errors produced by Starbyte core services.
#[derive(Debug, Clone, PartialEq, Eq)]
pub enum Error {
    /// Generic host or content IO failure.
    Io {
        /// Path involved in the failure.
        path: String,
        /// Description of the underlying failure.
        details: String,
    },
    /// A ROM image could not be parsed.
    InvalidRom(String),
    /// A requested firmware blob is missing.
    MissingFirmware {
        /// Firmware display name.
        name: String,
    },
    /// A user-supplied firmware blob failed validation.
    InvalidFirmware {
        /// Firmware display name.
        name: String,
        /// Byte count that was supplied.
        actual_len: usize,
    },
    /// User-supplied save RAM does not match cartridge expectations.
    InvalidSaveRam {
        /// Cartridge-advertised save RAM byte count.
        expected: usize,
        /// Actual supplied save RAM byte count.
        actual: usize,
    },
    /// Requested functionality is intentionally deferred.
    Unimplemented(String),
    /// CPU opcode is not implemented by the current core.
    UnsupportedOpcode {
        /// CPU identifier.
        cpu: String,
        /// Opcode byte.
        opcode: u8,
        /// Address the opcode was fetched from.
        address: u32,
    },
    /// State or data serialization failure.
    Serialization(String),
    /// Config parsing failure.
    Config(String),
}

impl Error {
    /// An I/O error for `path`, described by `details`.
    pub fn io(path: String, details: String) -> (e: Error)
        ensures
            e == (Error::Io { path, details }),
    {
        Error::Io { path, details }
    }

    /// The human-readable message of the error.
    pub open spec fn spec_message(self) -> Seq<char> {
        match self {
            Error::Io { path, details } => "I/O error while accessing "@ + path_debug(path@) + ": "@ + details@,
            Error::InvalidRom(m) => "invalid ROM: "@ + m@,
            Error::MissingFirmware { name } => "missing firmware: "@ + name@,
            Error::InvalidFirmware { name, actual_len } => "invalid firmware for "@ + name@
                + ": expected 64 bytes but received "@ + decimal(actual_len as nat) + " bytes"@,
            Error::InvalidSaveRam { expected, actual } => "invalid save RAM: expected "@ + decimal(expected as nat)
                + " bytes, got "@ + decimal(actual as nat),
            Error::Unimplemented(m) => "feature not implemented yet: "@ + m@,
            Error::UnsupportedOpcode { cpu, opcode, address: _ } => "unsupported opcode for "@ + cpu@ + ": 0x"@
                + hex_padded(opcode as nat, 2),
            Error::Serialization(m) => "serialization error: "@ + m@,
            Error::Config(m) => "configuration error: "@ + m@,
        }
    }

    /// The human-readable message of the error.
    pub fn message(&self) -> (m: String)
        ensures
            m@ == self.spec_message(),
    {
        match self {
            Error::Io { path, details } => {
                let mut m = String::from_str("I/O error while accessing ");
                let quoted = path_debug_text(path.as_str());
                m.append(quoted.as_str());
                m.append(": ");
                m.append(details.as_str());
                m
            },
            Error::InvalidRom(text) => String::from_str("invalid ROM: ").concat(text.as_str()),
            Error::MissingFirmware { name } => String::from_str("missing firmware: ").concat(name.as_str()),
            Error::InvalidFirmware { name, actual_len } => {
                let mut m = String::from_str("invalid firmware for ");
                m.append(name.as_str());
                m.append(": expected 64 bytes but received ");
                push_decimal(&mut m, *actual_len as u64);
                m.append(" bytes");
                m
            },
            Error::InvalidSaveRam { expected, actual } => {
                let mut m = String::from_str("invalid save RAM: expected ");
                push_decimal(&mut m, *expected as u64);
                m.append(" bytes, got ");
                push_decimal(&mut m, *actual as u64);
                m
            },
            Error::Unimplemented(text) => String::from_str("feature not implemented yet: ").concat(text.as_str()),
            Error::UnsupportedOpcode { cpu, opcode, address: _ } => {
                let mut m = String::from_str("unsupported opcode for ");
                m.append(cpu.as_str());
                m.append(": 0x");
                push_hex(&mut m, *opcode as u64, 2);
                m
            },
            Error::Serialization(text) => String::from_str("serialization error: ").concat(text.as_str()),
            Error::Config(text) => String::from_str("configuration error: ").concat(text.as_str()),
        }
    }
}

/// Shared result type for the core crate.
pub type Result<T> = core::result::Result<T, Error>;

} // verus!
