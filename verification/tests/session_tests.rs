use cybootload::{
    bootload, compute_checksum, create_packet, row_packets, transmit, BootloaderCommand,
    BootloaderError, BufferedLines, Connection, Error, FlashRow, HostError,
};

/// A scripted transport: records every frame written, and serves one queued
/// response frame (as raw bytes) per write.
struct SimPort {
    written: Vec<Vec<u8>>,
    responses: Vec<Vec<u8>>,
    rx: Vec<u8>,
    opened: bool,
    closed: bool,
}

impl SimPort {
    fn new(responses: Vec<Vec<u8>>) -> SimPort {
        SimPort { written: Vec::new(), responses, rx: Vec::new(), opened: false, closed: false }
    }
}

impl<'a> Connection for &'a mut SimPort {
    fn open(&mut self) -> bool {
        self.opened = true;
        true
    }

    fn close(&mut self) -> bool {
        self.closed = true;
        true
    }

    fn write_all(&mut self, data: &[u8]) -> bool {
        self.written.push(data.to_vec());
        if !self.responses.is_empty() {
            let r = self.responses.remove(0);
            self.rx.extend(r);
        }
        true
    }

    fn read_exact(&mut self, count: usize) -> Option<Vec<u8>> {
        if self.rx.len() < count {
            return None;
        }
        let out: Vec<u8> = self.rx.drain(0..count).collect();
        Some(out)
    }
}

/// A line source over a fixed list of lines.
fn lines_of(lines: &[&str]) -> BufferedLines {
    BufferedLines::new(lines.iter().map(|l| l.to_string()).collect())
}

/// A success response frame with the given payload, as the device would
/// send it.
fn success_frame(payload: &[u8]) -> Vec<u8> {
    let mut frame = vec![0x01, 0x00, (payload.len() % 256) as u8, (payload.len() / 256) as u8];
    frame.extend_from_slice(payload);
    let c = compute_checksum(&frame);
    frame.push((c % 256) as u8);
    frame.push((c / 256) as u8);
    frame.push(0x17);
    frame
}

#[test]
fn transmit_round_trip_returns_payload() {
    // any packet echoed back with success status decodes to the same payload
    let payload = [0xDE, 0xAD, 0xBE, 0xEF];
    let mut port = SimPort::new(vec![success_frame(&payload)]);
    let packet = create_packet(BootloaderCommand::SendData, Some(&payload));
    let r = { let mut conn = &mut port; transmit(&mut conn, &packet, true) }.unwrap();
    assert_eq!(r, payload.to_vec());
}

#[test]
fn transmit_without_response_reads_nothing() {
    let mut port = SimPort::new(vec![success_frame(&[0x55])]);
    let packet = create_packet(BootloaderCommand::ExitBootloader, None);
    let r = { let mut conn = &mut port; transmit(&mut conn, &packet, false) }.unwrap();
    assert_eq!(r, Vec::<u8>::new());
    assert_eq!(port.rx.len(), 8); // the queued response was never read
}

#[test]
fn transmit_rejects_bad_start_marker() {
    let mut frame = success_frame(&[]);
    frame[0] = 0x02;
    let mut port = SimPort::new(vec![frame]);
    let packet = create_packet(BootloaderCommand::Sync, None);
    let r = { let mut conn = &mut port; transmit(&mut conn, &packet, true) };
    assert_eq!(r.unwrap_err(), Error::Host(HostError::Data));
}

#[test]
fn transmit_rejects_bad_checksum() {
    let mut frame = success_frame(&[0x11]);
    let n = frame.len();
    frame[n - 3] = frame[n - 3].wrapping_add(1);
    let mut port = SimPort::new(vec![frame]);
    let packet = create_packet(BootloaderCommand::Sync, None);
    let r = { let mut conn = &mut port; transmit(&mut conn, &packet, true) };
    assert_eq!(r.unwrap_err(), Error::Host(HostError::Checksum));
}

#[test]
fn transmit_rejects_bad_end_marker() {
    let mut frame = success_frame(&[0x11]);
    let n = frame.len();
    frame[n - 1] = 0x18;
    let mut port = SimPort::new(vec![frame]);
    let packet = create_packet(BootloaderCommand::Sync, None);
    let r = { let mut conn = &mut port; transmit(&mut conn, &packet, true) };
    assert_eq!(r.unwrap_err(), Error::Host(HostError::Data));
}

#[test]
fn transmit_maps_status_byte() {
    // status 0x0A: the device rejected the row
    let mut port = SimPort::new(vec![vec![0x01, 0x0A, 0x00, 0x00]]);
    let packet = create_packet(BootloaderCommand::ProgramRow, Some(&[0x00]));
    let r = { let mut conn = &mut port; transmit(&mut conn, &packet, true) };
    assert_eq!(r.unwrap_err(), Error::Bootloader(BootloaderError::Row));
}

#[test]
fn transmit_short_read_is_device_error() {
    let mut port = SimPort::new(vec![vec![0x01, 0x00, 0x05, 0x00]]);
    let packet = create_packet(BootloaderCommand::Sync, None);
    let r = { let mut conn = &mut port; transmit(&mut conn, &packet, true) };
    assert_eq!(r.unwrap_err(), Error::Host(HostError::Device));
}

#[test]
fn chunking_long_row() {
    // 120 data bytes with a 50-byte chunk limit: two SendData frames of 50
    // bytes each, then one ProgramRow frame with 3 address bytes + 20 left
    let data: Vec<u8> = (0..120).map(|i| i as u8).collect();
    let row = FlashRow { array_id: 0x01, row_num: 0x0102, size: 120, data, checksum: 0x00 };
    let packets = row_packets(&row);
    assert_eq!(packets.len(), 3);

    assert_eq!(packets[0][1], 0x37); // SendData
    assert_eq!(&packets[0][2..4], &[50u8, 0]);
    let chunk0: Vec<u8> = (0..50).map(|i| i as u8).collect();
    assert_eq!(&packets[0][4..54], chunk0.as_slice());

    assert_eq!(packets[1][1], 0x37);
    assert_eq!(&packets[1][2..4], &[50u8, 0]);
    let chunk1: Vec<u8> = (50..100).map(|i| i as u8).collect();
    assert_eq!(&packets[1][4..54], chunk1.as_slice());

    assert_eq!(packets[2][1], 0x39); // ProgramRow
    assert_eq!(&packets[2][2..4], &[23u8, 0]); // 3 address bytes + 20 data bytes
    assert_eq!(&packets[2][4..7], &[0x01u8, 0x02, 0x01]); // array id, row number LE
    let tail: Vec<u8> = (100..120).map(|i| i as u8).collect();
    assert_eq!(&packets[2][7..27], tail.as_slice());
}

#[test]
fn chunking_short_row_is_single_packet() {
    let row = FlashRow { array_id: 0x02, row_num: 0x0003, size: 2, data: vec![0xAA, 0xBB], checksum: 0xCC };
    let packets = row_packets(&row);
    assert_eq!(packets.len(), 1);
    assert_eq!(
        packets[0],
        vec![0x01, 0x39, 0x05, 0x00, 0x02, 0x03, 0x00, 0xAA, 0xBB, 0x57, 0xFE, 0x17]
    );
}

#[test]
fn end_to_end_success() {
    let mut input = lines_of(&["01020304AB00", ":0100050002AABBCC"]);
    // responses for EnterBootloader, ProgramRow, VerifyRow; ExitBootloader
    // expects none
    let mut port = SimPort::new(vec![
        success_frame(&[0x20, 0x00, 0x00, 0x01]),
        success_frame(&[]),
        success_frame(&[]),
    ]);
    let r = bootload(&mut input, &mut port);
    assert!(r.is_ok());
    assert!(port.opened);
    assert!(port.closed);
    let commands: Vec<u8> = port.written.iter().map(|p| p[1]).collect();
    assert_eq!(commands, vec![0x38, 0x39, 0x3A, 0x3B]);
    // the ProgramRow frame carries the address bytes and the row data
    assert_eq!(
        port.written[1],
        vec![0x01, 0x39, 0x05, 0x00, 0x01, 0x05, 0x00, 0xAA, 0xBB, 0x56, 0xFE, 0x17]
    );
    // the VerifyRow frame carries the address bytes alone
    assert_eq!(
        port.written[2],
        vec![0x01, 0x3A, 0x03, 0x00, 0x01, 0x05, 0x00, 0xBC, 0xFF, 0x17]
    );
}

#[test]
fn end_to_end_verify_failure() {
    let mut input = lines_of(&["01020304AB00", ":0100050002AABBCC"]);
    // the device accepts EnterBootloader and ProgramRow, then answers
    // VerifyRow with status 0x08
    let mut port = SimPort::new(vec![
        success_frame(&[]),
        success_frame(&[]),
        vec![0x01, 0x08, 0x00, 0x00],
    ]);
    let r = bootload(&mut input, &mut port);
    assert_eq!(r.unwrap_err(), Error::Bootloader(BootloaderError::Checksum));
    // the session aborts at once: no ExitBootloader, no close
    assert!(port.written.iter().all(|p| p[1] != 0x3B));
    assert!(!port.closed);
}

#[test]
fn bootload_rejects_bad_header() {
    let mut input = lines_of(&["0102", ":0100050002AABBCC"]);
    let mut port = SimPort::new(vec![]);
    let r = bootload(&mut input, &mut port);
    assert_eq!(r.unwrap_err(), Error::Host(HostError::Length));
    assert!(port.written.is_empty());
}

#[test]
fn bootload_propagates_row_parse_error() {
    let mut input = lines_of(&["01020304AB00", "0100050002AABBCC"]);
    let mut port = SimPort::new(vec![success_frame(&[])]);
    let r = bootload(&mut input, &mut port);
    assert_eq!(r.unwrap_err(), Error::Host(HostError::Command));
    // only EnterBootloader went out, and no teardown followed
    let commands: Vec<u8> = port.written.iter().map(|p| p[1]).collect();
    assert_eq!(commands, vec![0x38]);
    assert!(!port.closed);
}

#[test]
fn end_to_end_success_chunked_row() {
    // one row of 120 data bytes: the session sends two SendData frames
    // before ProgramRow and VerifyRow
    let data: Vec<u8> = (0..120).map(|i| i as u8).collect();
    let mut line = String::from(":0100070078"); // array 1, row 7, 120 bytes
    for b in &data {
        line.push_str(&format!("{:02X}", b));
    }
    line.push_str("00"); // row checksum byte
    let mut input = lines_of(&["01020304AB00", &line]);
    let mut port = SimPort::new(vec![
        success_frame(&[]),
        success_frame(&[]),
        success_frame(&[]),
        success_frame(&[]),
        success_frame(&[]),
    ]);
    let r = bootload(&mut input, &mut port);
    assert!(r.is_ok());
    let commands: Vec<u8> = port.written.iter().map(|p| p[1]).collect();
    assert_eq!(commands, vec![0x38, 0x37, 0x37, 0x39, 0x3A, 0x3B]);
    // each SendData frame carries fifty bytes, ProgramRow the last twenty
    assert_eq!(&port.written[1][4..54], &data[0..50]);
    assert_eq!(&port.written[2][4..54], &data[50..100]);
    assert_eq!(&port.written[3][4..7], &[0x01u8, 0x07, 0x00]);
    assert_eq!(&port.written[3][7..27], &data[100..120]);
}
