//! The binary packet codec: building outgoing frames and validating the
//! frames the device sends back.
//!
//! A frame is `[0x01][code][length, little-endian 16-bit][payload]
//! [checksum, little-endian 16-bit][0x17]`, with the checksum computed over
//! everything before it. Host-to-device frames carry a command byte; the
//! device answers with a status byte in the same position, `0x00` meaning
//! success.

use vstd::prelude::*;

use crate::checksum::{byte_sum, checksum_of, compute_checksum, lemma_byte_sum_nonneg};
use crate::errors::{status_error, BootloaderError, Error, HostError};

verus! {

/// The commands of the bootloader wire protocol.
#[derive(Clone, Copy, Debug, PartialEq, Eq)]
pub enum BootloaderCommand {
    VerifyChecksum,
    GetFlashSize,
    GetAppStatus,
    EraseRow,
    Sync,
    SetActiveApp,
    SendData,
    EnterBootloader,
    ProgramRow,
    VerifyRow,
    ExitBootloader,
    GetMetaData,
}

impl BootloaderCommand {
    /// The byte each command is encoded as on the wire.
    pub open spec fn spec_code(self) -> u8 {
        match self {
            BootloaderCommand::VerifyChecksum => 0x31,
            BootloaderCommand::GetFlashSize => 0x32,
            BootloaderCommand::GetAppStatus => 0x33,
            BootloaderCommand::EraseRow => 0x34,
            BootloaderCommand::Sync => 0x35,
            BootloaderCommand::SetActiveApp => 0x36,
            BootloaderCommand::SendData => 0x37,
            BootloaderCommand::EnterBootloader => 0x38,
            BootloaderCommand::ProgramRow => 0x39,
            BootloaderCommand::VerifyRow => 0x3A,
            BootloaderCommand::ExitBootloader => 0x3B,
            BootloaderCommand::GetMetaData => 0x3C,
        }
    }

    pub fn code(self) -> (c: u8)
        ensures
            c == self.spec_code(),
    {
        match self {
            BootloaderCommand::VerifyChecksum => 0x31,
            BootloaderCommand::GetFlashSize => 0x32,
            BootloaderCommand::GetAppStatus => 0x33,
            BootloaderCommand::EraseRow => 0x34,
            BootloaderCommand::Sync => 0x35,
            BootloaderCommand::SetActiveApp => 0x36,
            BootloaderCommand::SendData => 0x37,
            BootloaderCommand::EnterBootloader => 0x38,
            BootloaderCommand::ProgramRow => 0x39,
            BootloaderCommand::VerifyRow => 0x3A,
            BootloaderCommand::ExitBootloader => 0x3B,
            BootloaderCommand::GetMetaData => 0x3C,
        }
    }
}

/// Low byte of a value stored as 16-bit little-endian.
pub open spec fn le_lo(v: int) -> u8 {
    (v % 256) as u8
}

/// High byte of a value stored as 16-bit little-endian.
pub open spec fn le_hi(v: int) -> u8 {
    ((v / 256) % 256) as u8
}

/// Everything of a frame before its checksum: start marker, code byte,
/// little-endian payload length, payload.
pub open spec fn packet_body(code: u8, payload: Seq<u8>) -> Seq<u8> {
    seq![1u8, code, le_lo(payload.len() as int), le_hi(payload.len() as int)] + payload
}

/// The complete frame: body, little-endian checksum over the body, end
/// marker.
pub open spec fn packet_bytes(code: u8, payload: Seq<u8>) -> Seq<u8> {
    packet_body(code, payload) + seq![
        le_lo(checksum_of(packet_body(code, payload))),
        le_hi(checksum_of(packet_body(code, payload))),
        0x17u8,
    ]
}

/// Builds the frame for a command, with an optional payload. A missing
/// payload is emitted as a zero length field and no payload bytes.
pub fn create_packet(cmd: BootloaderCommand, data: Option<&[u8]>) -> (r: Vec<u8>)
    requires
        data matches Some(d) ==> d@.len() <= 0xFFFF,
    ensures
        data matches Some(d) ==> r@ == packet_bytes(cmd.spec_code(), d@),
        data is None ==> r@ == packet_bytes(cmd.spec_code(), Seq::<u8>::empty()),
{
    let ghost payload: Seq<u8> = match data {
        Some(d) => d@,
        None => Seq::empty(),
    };
    let mut packet: Vec<u8> = Vec::new();
    packet.push(0x01);
    packet.push(cmd.code());
    match data {
        Some(d) => {
            packet.push((d.len() % 256) as u8);
            packet.push(((d.len() / 256) % 256) as u8);
            let mut i: usize = 0;
            while i < d.len()
                invariant
                    i <= d@.len(),
                    packet@ == seq![
                        1u8,
                        cmd.spec_code(),
                        le_lo(d@.len() as int),
                        le_hi(d@.len() as int),
                    ] + d@.take(i as int),
                decreases d@.len() - i,
            {
                packet.push(d[i]);
                proof {
                    assert(d@.take(i as int).push(d@[i as int]) =~= d@.take(i as int + 1));
                    assert(packet@ =~= seq![
                        1u8,
                        cmd.spec_code(),
                        le_lo(d@.len() as int),
                        le_hi(d@.len() as int),
                    ] + d@.take(i as int + 1));
                }
                i += 1;
            }
            proof {
                assert(d@.take(d@.len() as int) =~= d@);
            }
        },
        None => {
            packet.push(0x00);
            packet.push(0x00);
        },
    }
    proof {
        assert(packet@ =~= packet_body(cmd.spec_code(), payload));
    }
    let cks = compute_checksum(packet.as_slice());
    packet.push((cks % 256) as u8);
    packet.push(((cks / 256) % 256) as u8);
    packet.push(0x17);
    proof {
        assert(packet@ =~= packet_bytes(cmd.spec_code(), payload));
    }
    packet
}

/// A well-formed success response frame: start marker, success status, a
/// length field that matches the payload, a matching checksum, and the end
/// marker.
pub open spec fn response_frame_ok(header: Seq<u8>, payload: Seq<u8>, footer: Seq<u8>) -> bool {
    &&& header.len() == 4
    &&& footer.len() == 3
    &&& header[0] == 1
    &&& header[1] == 0
    &&& payload.len() == header[2] + header[3] * 256
    &&& footer[0] + footer[1] * 256 == checksum_of(header + payload)
    &&& footer[2] == 0x17
}

/// A payload that some well-formed success response frame carries: what a
/// validated response is known to be, whatever bytes the device sent.
pub open spec fn valid_response_payload(p: Seq<u8>) -> bool {
    exists|h: Seq<u8>, f: Seq<u8>| response_frame_ok(h, p, f)
}

/// Reads a response frame's four header bytes: checks the start marker and
/// the status byte, and extracts the little-endian payload length.
pub fn inspect_header(header: &Vec<u8>) -> (r: Result<u16, Error>)
    requires
        header@.len() == 4,
    ensures
        header@[0] != 1 ==> r == Err::<u16, Error>(Error::Host(HostError::Data)),
        header@[0] == 1 && header@[1] != 0 ==> r == Err::<u16, Error>(
            Error::Bootloader(status_error(header@[1])),
        ),
        header@[0] == 1 && header@[1] == 0 ==> r == Ok::<u16, Error>(
            (header@[2] + header@[3] * 256) as u16,
        ),
{
    if header[0] != 0x01 {
        return Err(Error::Host(HostError::Data));
    }
    if header[1] != 0x00 {
        return Err(Error::Bootloader(BootloaderError::from(header[1])));
    }
    Ok(header[2] as u16 + header[3] as u16 * 256)
}

/// Checks a response frame's checksum and end marker, the frame given as the
/// three parts in which it is read: header, payload, footer.
pub fn validate_frame(header: &Vec<u8>, payload: &Vec<u8>, footer: &Vec<u8>) -> (r: Result<
    (),
    Error,
>)
    requires
        header@.len() == 4,
        footer@.len() == 3,
    ensures
        footer@[0] + footer@[1] * 256 != checksum_of(header@ + payload@) ==> r == Err::<
            (),
            Error,
        >(Error::Host(HostError::Checksum)),
        footer@[0] + footer@[1] * 256 == checksum_of(header@ + payload@) && footer@[2] != 0x17
            ==> r == Err::<(), Error>(Error::Host(HostError::Data)),
        footer@[0] + footer@[1] * 256 == checksum_of(header@ + payload@) && footer@[2] == 0x17
            ==> r == Ok::<(), Error>(()),
{
    let mut summed: Vec<u8> = Vec::new();
    let mut i: usize = 0;
    while i < header.len()
        invariant
            header@.len() == 4,
            i <= 4,
            summed@ == header@.take(i as int),
        decreases 4 - i,
    {
        summed.push(header[i]);
        proof {
            assert(header@.take(i as int).push(header@[i as int]) =~= header@.take(i as int + 1));
        }
        i += 1;
    }
    let mut j: usize = 0;
    while j < payload.len()
        invariant
            header@.len() == 4,
            j <= payload@.len(),
            summed@ == header@.take(4) + payload@.take(j as int),
        decreases payload@.len() - j,
    {
        summed.push(payload[j]);
        proof {
            assert(payload@.take(j as int).push(payload@[j as int]) =~= payload@.take(
                j as int + 1,
            ));
            assert(summed@ =~= header@.take(4) + payload@.take(j as int + 1));
        }
        j += 1;
    }
    proof {
        assert(header@.take(4) =~= header@);
        assert(payload@.take(payload@.len() as int) =~= payload@);
        assert(summed@ =~= header@ + payload@);
    }
    let cks = compute_checksum(summed.as_slice());
    let stored = footer[0] as u16 + footer[1] as u16 * 256;
    proof {
        lemma_byte_sum_nonneg(header@ + payload@);
        vstd::arithmetic::div_mod::lemma_mod_bound(
            byte_sum(header@ + payload@),
            0x10000,
        );
        vstd::arithmetic::div_mod::lemma_mod_bound(
            0x10000 - byte_sum(header@ + payload@) % 0x10000,
            0x10000,
        );
    }
    if stored != cks {
        return Err(Error::Host(HostError::Checksum));
    }
    if footer[2] != 0x17 {
        return Err(Error::Host(HostError::Data));
    }
    Ok(())
}

/// Packet round-trip: a frame built for the success status byte and a
/// payload of at most fifty bytes, read back the way a response is read
/// (four header bytes, the payload, three footer bytes), passes every
/// response check and yields the payload unchanged. The frame built for the
/// command carries that same payload in the same position.
pub proof fn lemma_packet_round_trip(cmd: BootloaderCommand, payload: Seq<u8>)
    requires
        payload.len() <= 50,
    ensures
        ({
            let echo = packet_bytes(0, payload);
            &&& echo.len() == payload.len() + 7
            &&& echo.subrange(4, 4 + payload.len() as int) == payload
            &&& response_frame_ok(
                echo.subrange(0, 4),
                payload,
                echo.subrange(4 + payload.len() as int, echo.len() as int),
            )
        }),
        packet_bytes(cmd.spec_code(), payload).subrange(4, 4 + payload.len() as int) == payload,
{
    let n = payload.len() as int;
    let body = packet_body(0, payload);
    let c = checksum_of(body);
    let echo = packet_bytes(0, payload);
    lemma_byte_sum_nonneg(body);
    vstd::arithmetic::div_mod::lemma_mod_bound(byte_sum(body), 0x10000);
    vstd::arithmetic::div_mod::lemma_mod_bound(0x10000 - byte_sum(body) % 0x10000, 0x10000);
    assert(0 <= c < 0x10000);
    assert(echo.subrange(4, 4 + n) =~= payload);
    let header = echo.subrange(0, 4);
    let footer = echo.subrange(4 + n, echo.len() as int);
    assert(header =~= seq![1u8, 0u8, le_lo(n), le_hi(n)]);
    assert(footer =~= seq![le_lo(c), le_hi(c), 0x17u8]);
    assert(le_lo(n) == n % 256 && le_hi(n) == (n / 256) % 256);
    assert(n % 256 == n && n / 256 == 0) by {
        vstd::arithmetic::div_mod::lemma_small_mod(n as nat, 256);
        vstd::arithmetic::div_mod::lemma_basic_div(n, 256);
    }
    assert(payload.len() == header[2] + header[3] * 256);
    assert(header + payload =~= body);
    assert(footer[0] + footer[1] * 256 == c % 256 + ((c / 256) % 256) * 256);
    assert(c % 256 + ((c / 256) % 256) * 256 == c) by {
        vstd::arithmetic::div_mod::lemma_fundamental_div_mod(c, 256);
        assert(c / 256 < 256);
        vstd::arithmetic::div_mod::lemma_small_mod((c / 256) as nat, 256);
    }
    assert(response_frame_ok(header, payload, footer));
    assert(packet_bytes(cmd.spec_code(), payload).subrange(4, 4 + n) =~= payload);
}

} // verus!
