//! The flashing session: the transport and line-source capabilities the
//! caller supplies, the framed exchange with the device, and the sequence
//! that programs a whole image — enter the bootloader, program and verify
//! each row in order, exit.

use vstd::prelude::*;
use vstd::slice::slice_subrange;

use crate::codec::{
    create_packet, inspect_header, le_hi, le_lo, packet_bytes, response_frame_ok,
    valid_response_payload, validate_frame, BootloaderCommand,
};
use crate::cyacd::{parse_header, parse_row, FlashRow};
use crate::errors::{Error, HostError};

verus! {

/// The transport the caller supplies: a byte stream with an open/close
/// lifecycle, such as a serial port. Implementations live outside this
/// crate; nothing is assumed of them beyond `read_exact` returning the
/// number of bytes it was asked for whenever it returns bytes at all.
pub trait Connection {
    /// Opens the transport. `false` reports that it could not be opened.
    fn open(&mut self) -> bool;

    /// Closes the transport.
    fn close(&mut self) -> bool;

    /// Writes the whole buffer to the transport. `false` reports an I/O
    /// failure.
    fn write_all(&mut self, data: &[u8]) -> bool;

    /// Reads exactly `count` bytes, blocking until they arrive. `None`
    /// reports an I/O failure.
    fn read_exact(&mut self, count: usize) -> (r: Option<Vec<u8>>)
        ensures
            r matches Some(v) ==> v@.len() == count,
    ;
}

/// The firmware image text, consumed one line at a time so that the whole
/// image is never held in memory.
pub trait LineSource {
    /// Whether this source declares itself finite. A source that does keeps
    /// the promise below about [`LineSource::lines_remaining`]; for the
    /// default, `false`, the promise is vacuous and nothing is assumed of
    /// the source.
    open spec fn finite(&self) -> bool {
        false
    }

    /// A ghost measure of how much input remains in a finite source. The
    /// source need not know the count, only that it shrinks with every line
    /// handed out.
    open spec fn lines_remaining(&self) -> nat {
        0
    }

    /// The next line of the image text, `None` once the stream has no
    /// further line.
    fn next_line(&mut self) -> (r: Option<String>)
        ensures
            old(self).finite() ==> final(self).finite(),
            r is Some && old(self).finite() ==> final(self).lines_remaining() < old(
                self,
            ).lines_remaining(),
    ;
}

/// A line source over lines already held in memory, mostly for exercising a
/// session against a scripted device. A streaming source would implement
/// [`LineSource`] itself.
pub struct BufferedLines {
    pub lines: Vec<String>,
    pub pos: usize,
}

impl BufferedLines {
    /// A source that will yield the given lines in order.
    pub fn new(lines: Vec<String>) -> (r: BufferedLines)
        ensures
            r.finite(),
    {
        BufferedLines { lines, pos: 0 }
    }
}

impl LineSource for BufferedLines {
    open spec fn finite(&self) -> bool {
        true
    }

    open spec fn lines_remaining(&self) -> nat {
        if self.pos <= self.lines@.len() {
            (self.lines@.len() - self.pos) as nat
        } else {
            0
        }
    }

    fn next_line(&mut self) -> (r: Option<String>) {
        if self.pos < self.lines.len() {
            let line = self.lines[self.pos].clone();
            self.pos = self.pos + 1;
            Some(line)
        } else {
            None
        }
    }
}

/// Sends one frame. When a response is expected, reads the response frame
/// in three parts — four header bytes, the payload the header declares,
/// three footer bytes — validates it, and returns its payload; otherwise
/// returns an empty payload at once. Transport failures surface as
/// `Host(Device)`; a bad start or end marker as `Host(Data)`; a checksum
/// mismatch as `Host(Checksum)`; a non-success status byte as the mapped
/// `Bootloader` error.
pub fn transmit<C: Connection>(comm: &mut C, tx_data: &[u8], response: bool) -> (r: Result<
    Vec<u8>,
    Error,
>)
    ensures
        !response ==> ((r matches Ok(v) && v@.len() == 0) || r == Err::<Vec<u8>, Error>(
            Error::Host(HostError::Device),
        )),
        response ==> (r matches Ok(p) ==> valid_response_payload(p@)),
        r matches Err(e) ==> e != Error::Host(HostError::Eof),
{
    if !comm.write_all(tx_data) {
        return Err(Error::Host(HostError::Device));
    }
    if !response {
        return Ok(Vec::new());
    }
    let header = match comm.read_exact(4) {
        Some(h) => h,
        None => {
            return Err(Error::Host(HostError::Device));
        },
    };
    let len = match inspect_header(&header) {
        Ok(l) => l,
        Err(e) => {
            return Err(e);
        },
    };
    let payload = match comm.read_exact(len as usize) {
        Some(p) => p,
        None => {
            return Err(Error::Host(HostError::Device));
        },
    };
    let footer = match comm.read_exact(3) {
        Some(f) => f,
        None => {
            return Err(Error::Host(HostError::Device));
        },
    };
    match validate_frame(&header, &payload, &footer) {
        Ok(()) => {
            proof {
                assert(valid_response_payload(payload@)) by {
                    assert(response_frame_ok(header@, payload@, footer@));
                }
            }
            Ok(payload)
        },
        Err(e) => Err(e),
    }
}

/// Enters bootloader mode: sends `EnterBootloader` and awaits the response.
/// The response payload (flash geometry) is accepted and discarded.
pub fn start_bootloader<C: Connection>(comm: &mut C) -> (r: Result<(), Error>)
    ensures
        r matches Err(e) ==> e != Error::Host(HostError::Eof),
{
    let packet = create_packet(BootloaderCommand::EnterBootloader, None);
    match transmit(comm, packet.as_slice(), true) {
        Ok(_) => Ok(()),
        Err(e) => Err(e),
    }
}

/// Exits bootloader mode: sends `ExitBootloader` without awaiting a
/// response. Only a transport failure can go wrong.
pub fn stop_bootloader<C: Connection>(comm: &mut C) -> (r: Result<(), Error>)
    ensures
        r == Ok::<(), Error>(()) || r == Err::<(), Error>(Error::Host(HostError::Device)),
{
    let packet = create_packet(BootloaderCommand::ExitBootloader, None);
    match transmit(comm, packet.as_slice(), false) {
        Ok(_) => Ok(()),
        Err(e) => Err(e),
    }
}

/// The largest number of row data bytes one frame may carry.
pub const MAX_CHUNK: usize = 50;

/// How many full fifty-byte `SendData` frames a row of `len` data bytes
/// needs before its final `ProgramRow` frame: chunks are split off while
/// more than fifty bytes remain.
pub open spec fn spec_chunk_count(len: int) -> int
    decreases len,
{
    if len <= 50 {
        0
    } else {
        1 + spec_chunk_count(len - 50)
    }
}

proof fn lemma_chunk_count(len: int)
    requires
        len >= 0,
    ensures
        spec_chunk_count(len) >= 0,
        0 <= len - 50 * spec_chunk_count(len) <= 50,
    decreases len,
{
    if len > 50 {
        lemma_chunk_count(len - 50);
    }
}

/// The three address bytes that open a `ProgramRow` or `VerifyRow` payload:
/// array id, then the row number with its low byte first.
pub open spec fn row_address(row: FlashRow) -> Seq<u8> {
    seq![row.array_id, le_lo(row.row_num as int), le_hi(row.row_num as int)]
}

/// Builds the three address bytes of a row.
fn make_row_address(row: &FlashRow) -> (r: Vec<u8>)
    ensures
        r@ == row_address(*row),
{
    let mut address: Vec<u8> = Vec::new();
    address.push(row.array_id);
    address.push((row.row_num % 256) as u8);
    address.push((row.row_num / 256) as u8);
    proof {
        vstd::arithmetic::div_mod::lemma_small_mod((row.row_num / 256) as nat, 256);
        assert(address@ =~= row_address(*row));
    }
    address
}

/// The exact frames that programming one row sends, in order: one
/// `SendData` frame per fifty-byte chunk while more than fifty data bytes
/// remain, then one `ProgramRow` frame carrying the three address bytes
/// followed by the remaining tail.
pub fn row_packets(row: &FlashRow) -> (r: Vec<Vec<u8>>)
    ensures
        ({
            let len = row.data@.len() as int;
            let n = spec_chunk_count(len);
            &&& r@.len() == n + 1
            &&& forall|k: int|
                0 <= k < n ==> (#[trigger] r@[k])@ == packet_bytes(
                    0x37,
                    row.data@.subrange(50 * k, 50 * k + 50),
                )
            &&& r@[n]@ == packet_bytes(0x39, row_address(*row) + row.data@.skip(50 * n))
        }),
{
    let ghost len = row.data@.len() as int;
    proof {
        lemma_chunk_count(len);
    }
    let mut packets: Vec<Vec<u8>> = Vec::new();
    let mut offset: usize = 0;
    while row.data.len() - offset > MAX_CHUNK
        invariant
            len == row.data@.len(),
            offset == 50 * packets@.len(),
            offset <= row.data@.len(),
            spec_chunk_count(len - offset) + packets@.len() == spec_chunk_count(len),
            forall|k: int|
                0 <= k < packets@.len() ==> (#[trigger] packets@[k])@ == packet_bytes(
                    0x37,
                    row.data@.subrange(50 * k, 50 * k + 50),
                ),
        decreases row.data@.len() - offset,
    {
        let chunk = slice_subrange(row.data.as_slice(), offset, offset + MAX_CHUNK);
        let packet = create_packet(BootloaderCommand::SendData, Some(chunk));
        packets.push(packet);
        offset = offset + MAX_CHUNK;
    }
    let ghost n = spec_chunk_count(len);
    proof {
        assert(spec_chunk_count(len - offset) == 0);
        assert(packets@.len() == n);
    }
    let mut tail_payload = make_row_address(row);
    let mut i: usize = offset;
    while i < row.data.len()
        invariant
            offset <= i <= row.data@.len(),
            tail_payload@ == row_address(*row) + row.data@.subrange(offset as int, i as int),
        decreases row.data@.len() - i,
    {
        tail_payload.push(row.data[i]);
        proof {
            assert(row_address(*row) + row.data@.subrange(offset as int, i as int + 1)
                =~= (row_address(*row) + row.data@.subrange(offset as int, i as int)).push(
                row.data@[i as int],
            ));
        }
        i += 1;
    }
    proof {
        assert(row.data@.subrange(offset as int, row.data@.len() as int) =~= row.data@.skip(
            50 * n,
        ));
    }
    let packet = create_packet(BootloaderCommand::ProgramRow, Some(tail_payload.as_slice()));
    packets.push(packet);
    packets
}

/// Programs one row: sends each frame of [`row_packets`] in order, each
/// awaiting a response, and stops at the first failure.
pub fn program_row<C: Connection>(comm: &mut C, row: &FlashRow) -> (r: Result<(), Error>)
    ensures
        r matches Err(e) ==> e != Error::Host(HostError::Eof),
{
    let packets = row_packets(row);
    let mut i: usize = 0;
    while i < packets.len()
        invariant
            i <= packets@.len(),
        decreases packets@.len() - i,
    {
        match transmit(comm, packets[i].as_slice(), true) {
            Ok(_) => {},
            Err(e) => {
                return Err(e);
            },
        }
        i += 1;
    }
    Ok(())
}

/// Verifies one row on the device: sends a `VerifyRow` frame carrying the
/// row's three address bytes and awaits the response. A non-success status
/// surfaces as the mapped `Bootloader` error.
pub fn verify_row<C: Connection>(comm: &mut C, row: &FlashRow) -> (r: Result<(), Error>)
    ensures
        r matches Err(e) ==> e != Error::Host(HostError::Eof),
{
    let address = make_row_address(row);
    let packet = create_packet(BootloaderCommand::VerifyRow, Some(address.as_slice()));
    match transmit(comm, packet.as_slice(), true) {
        Ok(_) => Ok(()),
        Err(e) => Err(e),
    }
}

/// Runs a full flashing session: open the transport, parse the header line,
/// enter the bootloader, then program and verify every row in the order the
/// image gives them. When the image is exhausted, exit the bootloader
/// (without awaiting a response), close the transport and return success.
///
/// The first failure aborts the session at once; on that path the transport
/// is left as it stands — teardown belongs to the caller. `Host(Eof)` never
/// escapes: the end of the image is the success path.
pub fn bootload<L: LineSource, C: Connection>(input: &mut L, comm: C) -> (r: Result<(), Error>)
    requires
        old(input).finite(),
    ensures
        r matches Err(e) ==> e != Error::Host(HostError::Eof),
{
    let mut comm = comm;
    if !comm.open() {
        return Err(Error::Host(HostError::Device));
    }
    let header_line = match input.next_line() {
        Some(l) => l,
        None => String::new(),
    };
    let _header = match parse_header(header_line.as_str()) {
        Ok(h) => h,
        Err(e) => {
            return Err(e);
        },
    };
    match start_bootloader(&mut comm) {
        Ok(()) => {},
        Err(e) => {
            return Err(e);
        },
    }
    loop
        invariant
            input.finite(),
        decreases input.lines_remaining(),
    {
        let line = match input.next_line() {
            Some(l) => l,
            None => String::new(),
        };
        match parse_row(line.as_str()) {
            Ok(row) => {
                match program_row(&mut comm, &row) {
                    Ok(()) => {},
                    Err(e) => {
                        return Err(e);
                    },
                }
                match verify_row(&mut comm, &row) {
                    Ok(()) => {},
                    Err(e) => {
                        return Err(e);
                    },
                }
            },
            Err(e) => {
                match e {
                    Error::Host(HostError::Eof) => {
                        match stop_bootloader(&mut comm) {
                            Ok(()) => {},
                            Err(e2) => {
                                return Err(e2);
                            },
                        }
                        let _ = comm.close();
                        return Ok(());
                    },
                    _ => {
                        return Err(e);
                    },
                }
            },
        }
    }
}

} // verus!
