//! Host-side flashing of firmware images onto a microcontroller that runs a
//! serial bootloader.
//!
//! The crate covers the binary packet codec (framing, checksum, command and
//! status bytes), the parser for the hex-ASCII firmware image format (one
//! header line followed by row lines), and the session that sequences the
//! protocol: enter the bootloader, program and verify each row, exit.
//! The physical transport is supplied by the caller through the
//! [`session::Connection`] trait; the image text arrives line by line through
//! [`session::LineSource`].

pub mod checksum;
pub mod codec;
pub mod cyacd;
pub mod errors;
pub mod session;

pub use crate::checksum::compute_checksum;
pub use crate::codec::{create_packet, BootloaderCommand};
pub use crate::cyacd::{from_ascii, parse_header, parse_row};
pub use crate::cyacd::{ChecksumType, CyacdHeader, FlashRow};
pub use crate::errors::{BootloaderError, Error, HostError};
pub use crate::session::{
    bootload, program_row, row_packets, start_bootloader, stop_bootloader, transmit, verify_row,
    BufferedLines, Connection, LineSource,
};
