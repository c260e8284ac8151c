//! The error taxonomy: failures detected on the host, failures reported by
//! the device's bootloader, and the mapping from device status bytes to the
//! latter.

use vstd::prelude::*;

verus! {

/// A failure detected on the host side: malformed image text, a malformed
/// response frame, or a transport fault.
#[derive(Clone, Copy, Debug, PartialEq, Eq)]
pub enum HostError {
    /// The input stream yielded no further line.
    Eof,
    /// A line decoded to the wrong number of bytes.
    Length,
    /// A response frame had a wrong start or end marker.
    Data,
    /// A row line did not begin with the `:` marker.
    Command,
    /// The transport failed to open, read or write.
    Device,
    Version,
    /// A response frame's checksum did not match, or the header declared an
    /// unknown whole-image checksum algorithm.
    Checksum,
    Array,
    Row,
    Bootloader,
    Active,
    Unknown,
}

/// A failure reported by the device: the status byte of a response, mapped
/// through [`status_error`].
#[derive(Clone, Copy, Debug, PartialEq, Eq)]
pub enum BootloaderError {
    Length,
    Data,
    Command,
    Checksum,
    Array,
    Row,
    App,
    Active,
    Callback,
    Unknown,
}

/// Any failure that aborts a flashing session.
#[derive(Clone, Copy, Debug, PartialEq, Eq)]
pub enum Error {
    Host(HostError),
    Bootloader(BootloaderError),
}

/// The wire protocol's status-byte table. Every status byte outside the
/// table, `0x0F` included, maps to `Unknown`.
pub open spec fn status_error(value: u8) -> BootloaderError {
    if value == 0x03 {
        BootloaderError::Length
    } else if value == 0x04 {
        BootloaderError::Data
    } else if value == 0x05 {
        BootloaderError::Command
    } else if value == 0x08 {
        BootloaderError::Checksum
    } else if value == 0x09 {
        BootloaderError::Array
    } else if value == 0x0A {
        BootloaderError::Row
    } else if value == 0x0C {
        BootloaderError::App
    } else if value == 0x0D {
        BootloaderError::Active
    } else if value == 0x0E {
        BootloaderError::Callback
    } else {
        BootloaderError::Unknown
    }
}

impl From<u8> for BootloaderError {
    fn from(value: u8) -> (r: BootloaderError) {
        match value {
            0x03 => BootloaderError::Length,
            0x04 => BootloaderError::Data,
            0x05 => BootloaderError::Command,
            0x08 => BootloaderError::Checksum,
            0x09 => BootloaderError::Array,
            0x0A => BootloaderError::Row,
            0x0C => BootloaderError::App,
            0x0D => BootloaderError::Active,
            0x0E => BootloaderError::Callback,
            _ => BootloaderError::Unknown,
        }
    }
}

impl vstd::std_specs::convert::FromSpecImpl<u8> for BootloaderError {
    open spec fn obeys_from_spec() -> bool {
        true
    }

    open spec fn from_spec(value: u8) -> BootloaderError {
        status_error(value)
    }
}

} // verus!
