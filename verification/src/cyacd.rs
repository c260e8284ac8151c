//! The parser for the hex-ASCII firmware image text: one header line
//! followed by row lines, each row line starting with `:`.

use vstd::prelude::*;

use crate::errors::{Error, HostError};

verus! {

/// The whole-image checksum algorithm a header line declares.
#[derive(Clone, Copy, Debug, PartialEq, Eq)]
pub enum ChecksumType {
    Sum,
    Crc,
}

/// The decoded header line of a firmware image.
#[derive(Clone, Copy, Debug, PartialEq, Eq)]
pub struct CyacdHeader {
    pub silicon_id: u32,
    pub silicon_rev: u8,
    pub checksum_type: ChecksumType,
}

/// One decoded row line: one addressable block of a flash array.
/// `data` always holds exactly `size` bytes.
#[derive(Clone, Debug, PartialEq, Eq)]
pub struct FlashRow {
    pub array_id: u8,
    pub row_num: u16,
    pub size: u16,
    pub data: Vec<u8>,
    pub checksum: u8,
}

/// Whether a character is an ASCII hex digit.
pub open spec fn is_hex_digit(c: char) -> bool {
    ||| '0' as u32 <= c as u32 <= '9' as u32
    ||| 'a' as u32 <= c as u32 <= 'f' as u32
    ||| 'A' as u32 <= c as u32 <= 'F' as u32
}

/// The value of an ASCII hex digit.
pub open spec fn hex_val(c: char) -> int {
    if '0' as u32 <= c as u32 <= '9' as u32 {
        c as u32 - '0' as u32
    } else if 'a' as u32 <= c as u32 <= 'f' as u32 {
        c as u32 - 'a' as u32 + 10
    } else {
        c as u32 - 'A' as u32 + 10
    }
}

/// Hex decoding of a character sequence, taken two characters at a time:
/// every pair of hex digits becomes one byte, a trailing lone hex digit
/// becomes its own value, and every fragment that is not all hex digits is
/// dropped.
pub open spec fn decode_hex(s: Seq<char>) -> Seq<u8>
    decreases s.len(),
{
    if s.len() == 0 {
        Seq::empty()
    } else if s.len() == 1 {
        if is_hex_digit(s[0]) {
            seq![hex_val(s[0]) as u8]
        } else {
            Seq::empty()
        }
    } else {
        let rest = decode_hex(s.skip(2));
        if is_hex_digit(s[0]) && is_hex_digit(s[1]) {
            seq![(hex_val(s[0]) * 16 + hex_val(s[1])) as u8] + rest
        } else {
            rest
        }
    }
}

/// The value of one hex digit character, `None` for any other character.
fn hex_digit_value(c: char) -> (r: Option<u8>)
    ensures
        r matches Some(v) ==> is_hex_digit(c) && v == hex_val(c),
        r is None ==> !is_hex_digit(c),
{
    let u = c as u32;
    if 48 <= u && u <= 57 {
        Some((u - 48) as u8)
    } else if 97 <= u && u <= 102 {
        Some((u - 97 + 10) as u8)
    } else if 65 <= u && u <= 70 {
        Some((u - 65 + 10) as u8)
    } else {
        None
    }
}

/// Decodes a line of hex-ASCII text into bytes, two characters per byte.
pub fn from_ascii(input: &str) -> (r: Vec<u8>)
    ensures
        r@ == decode_hex(input@),
{
    let n = input.unicode_len();
    let mut out: Vec<u8> = Vec::new();
    let mut i: usize = 0;
    proof {
        assert(input@.skip(0) =~= input@);
        assert(out@ + decode_hex(input@) =~= decode_hex(input@));
    }
    while i < n
        invariant
            n == input@.len(),
            i <= n,
            decode_hex(input@) == out@ + decode_hex(input@.skip(i as int)),
        decreases n - i,
    {
        let ghost pre = out@;
        let c0 = input.get_char(i);
        if i + 1 < n {
            let c1 = input.get_char(i + 1);
            match (hex_digit_value(c0), hex_digit_value(c1)) {
                (Some(v0), Some(v1)) => {
                    out.push(v0 * 16 + v1);
                },
                _ => {},
            }
            proof {
                let tail = input@.skip(i as int);
                assert(tail[0] == input@[i as int]);
                assert(tail[1] == input@[i as int + 1]);
                assert(tail.skip(2) =~= input@.skip(i as int + 2));
                if is_hex_digit(input@[i as int]) && is_hex_digit(input@[i as int + 1]) {
                    assert(out@ =~= pre + seq![
                        (hex_val(input@[i as int]) * 16 + hex_val(input@[i as int + 1])) as u8,
                    ]);
                    assert(out@ + decode_hex(input@.skip(i as int + 2)) =~= pre + decode_hex(
                        tail,
                    ));
                } else {
                    assert(out@ + decode_hex(input@.skip(i as int + 2)) =~= pre + decode_hex(
                        tail,
                    ));
                }
            }
            i += 2;
        } else {
            match hex_digit_value(c0) {
                Some(v0) => {
                    out.push(v0);
                },
                None => {},
            }
            proof {
                let tail = input@.skip(i as int);
                assert(tail.len() == 1);
                assert(tail[0] == input@[i as int]);
                if is_hex_digit(input@[i as int]) {
                    assert(out@ =~= pre + seq![hex_val(input@[i as int]) as u8]);
                }
                assert(out@ + decode_hex(input@.skip(i as int + 1)) =~= pre + decode_hex(tail));
            }
            i += 1;
        }
    }
    proof {
        assert(input@.skip(n as int) =~= Seq::<char>::empty());
        assert(out@ =~= out@ + decode_hex(input@.skip(n as int)));
    }
    out
}

/// The 32-bit big-endian value of four bytes.
pub open spec fn be32(b0: u8, b1: u8, b2: u8, b3: u8) -> int {
    b0 * 0x1000000 + b1 * 0x10000 + b2 * 0x100 + b3
}

/// The 16-bit big-endian value of two bytes.
pub open spec fn be16(b0: u8, b1: u8) -> int {
    b0 * 0x100 + b1
}

/// Parses a header line. The line must decode to exactly six bytes: the
/// big-endian silicon id, the silicon revision, and the checksum-type byte
/// (`0` for `Sum`, `1` for `Crc`, anything else rejected).
pub fn parse_header(line: &str) -> (r: Result<CyacdHeader, Error>)
    ensures
        ({
            let bytes = decode_hex(line@);
            &&& bytes.len() != 6 ==> r == Err::<CyacdHeader, Error>(
                Error::Host(HostError::Length),
            )
            &&& bytes.len() == 6 && bytes[5] != 0 && bytes[5] != 1 ==> r == Err::<
                CyacdHeader,
                Error,
            >(Error::Host(HostError::Checksum))
            &&& bytes.len() == 6 && bytes[5] == 0 ==> (r matches Ok(h)
                && h.silicon_id == be32(bytes[0], bytes[1], bytes[2], bytes[3])
                && h.silicon_rev == bytes[4] && h.checksum_type == ChecksumType::Sum)
            &&& bytes.len() == 6 && bytes[5] == 1 ==> (r matches Ok(h)
                && h.silicon_id == be32(bytes[0], bytes[1], bytes[2], bytes[3])
                && h.silicon_rev == bytes[4] && h.checksum_type == ChecksumType::Crc)
        }),
{
    let bytes = from_ascii(line);
    if bytes.len() != 6 {
        return Err(Error::Host(HostError::Length));
    }
    let silicon_id = bytes[0] as u32 * 0x1000000 + bytes[1] as u32 * 0x10000 + bytes[2] as u32
        * 0x100 + bytes[3] as u32;
    let silicon_rev = bytes[4];
    let checksum_type = match bytes[5] {
        0 => ChecksumType::Sum,
        1 => ChecksumType::Crc,
        _ => {
            return Err(Error::Host(HostError::Checksum));
        },
    };
    Ok(CyacdHeader { silicon_id, silicon_rev, checksum_type })
}

/// Parses a row line. An empty line reports `Eof`: the input stream yielded
/// no further line. Otherwise the line must start with `:`; the characters
/// after it decode to `arrayId`(1), `rowNumber`(2, big-endian),
/// `declaredSize`(2, big-endian), `data`(`declaredSize` bytes) and
/// `checksum`(1), and the declared size must account for the whole line.
pub fn parse_row(line: &str) -> (r: Result<FlashRow, Error>)
    ensures
        ({
            let bytes = decode_hex(line@.skip(1));
            &&& line@.len() == 0 ==> r == Err::<FlashRow, Error>(Error::Host(HostError::Eof))
            &&& line@.len() > 0 && line@[0] != ':' ==> r == Err::<FlashRow, Error>(
                Error::Host(HostError::Command),
            )
            &&& line@.len() > 0 && line@[0] == ':' && bytes.len() <= 6 ==> r == Err::<
                FlashRow,
                Error,
            >(Error::Host(HostError::Length))
            &&& line@.len() > 0 && line@[0] == ':' && bytes.len() > 6 && be16(
                bytes[3],
                bytes[4],
            ) + 6 != bytes.len() ==> r == Err::<FlashRow, Error>(Error::Host(HostError::Length))
            &&& line@.len() > 0 && line@[0] == ':' && bytes.len() > 6 && be16(
                bytes[3],
                bytes[4],
            ) + 6 == bytes.len() ==> (r matches Ok(row) && row.array_id == bytes[0]
                && row.row_num == be16(bytes[1], bytes[2]) && row.size == be16(bytes[3], bytes[4])
                && row.data@ == bytes.subrange(5, bytes.len() - 1)
                && row.checksum == bytes[bytes.len() - 1])
        }),
{
    let n = line.unicode_len();
    if n == 0 {
        return Err(Error::Host(HostError::Eof));
    }
    if line.get_char(0) != ':' {
        return Err(Error::Host(HostError::Command));
    }
    let rest = line.substring_char(1, n);
    proof {
        assert(rest@ =~= line@.skip(1));
    }
    let bytes = from_ascii(rest);
    if bytes.len() <= 6 {
        return Err(Error::Host(HostError::Length));
    }
    let array_id = bytes[0];
    let row_num = bytes[1] as u16 * 0x100 + bytes[2] as u16;
    let size = bytes[3] as u16 * 0x100 + bytes[4] as u16;
    let checksum = bytes[bytes.len() - 1];
    if size as usize + 6 != bytes.len() {
        return Err(Error::Host(HostError::Length));
    }
    let mut data: Vec<u8> = Vec::new();
    let mut i: usize = 5;
    while i < bytes.len() - 1
        invariant
            5 <= i <= bytes@.len() - 1,
            data@ == bytes@.subrange(5, i as int),
        decreases bytes@.len() - i,
    {
        data.push(bytes[i]);
        proof {
            assert(bytes@.subrange(5, i as int).push(bytes@[i as int]) =~= bytes@.subrange(
                5,
                i as int + 1,
            ));
        }
        i += 1;
    }
    Ok(FlashRow { array_id, row_num, size, data, checksum })
}

} // verus!
