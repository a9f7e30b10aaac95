use std::cell::RefCell;
use std::rc::Rc;

use megalink_rs::{DriverError, EverdriveSerial, Mode, ResetMode, SerialFactory, SerialLink};

/// Every byte the driver wrote, across all connections, in order.
type TxLog = Rc<RefCell<Vec<u8>>>;
/// Every blocking wire operation: ('w', n) for a write of n bytes, ('r', n)
/// for a read of n bytes.
type OpLog = Rc<RefCell<Vec<(char, usize)>>>;

struct FakeLink {
    tx: TxLog,
    ops: OpLog,
    rx: Vec<u8>,
    pos: usize,
    fail_writes: bool,
}

impl SerialLink for FakeLink {
    fn write_all(&mut self, data: &[u8]) -> Result<(), DriverError> {
        if self.fail_writes {
            return Err(DriverError::IOError);
        }
        self.ops.borrow_mut().push(('w', data.len()));
        self.tx.borrow_mut().extend_from_slice(data);
        Ok(())
    }

    fn read_exact(&mut self, n: usize) -> Result<Vec<u8>, DriverError> {
        if self.pos + n > self.rx.len() {
            return Err(DriverError::Timeout);
        }
        self.ops.borrow_mut().push(('r', n));
        let out = self.rx[self.pos..self.pos + n].to_vec();
        self.pos += n;
        Ok(out)
    }

    fn read_some(&mut self, _max: usize) -> Result<Vec<u8>, DriverError> {
        // Nothing stale is pending; the driver's drain stops at once.
        Ok(Vec::new())
    }

    fn flush(&mut self) -> Result<(), DriverError> {
        Ok(())
    }

    fn set_timeout_ms(&mut self, _ms: u64) -> Result<(), DriverError> {
        Ok(())
    }
}

struct FakeFactory {
    tx: TxLog,
    ops: OpLog,
    /// Receive streams handed out by successive successful opens.
    rx_streams: Vec<Vec<u8>>,
    next_stream: usize,
    /// Indices of `open` calls (counting from zero) that fail.
    failures: Vec<usize>,
    opens: Rc<RefCell<usize>>,
    fail_writes: bool,
}

impl SerialFactory for FakeFactory {
    type Port = FakeLink;

    fn open(&mut self) -> Result<FakeLink, DriverError> {
        let n = *self.opens.borrow();
        *self.opens.borrow_mut() = n + 1;
        if self.failures.contains(&n) {
            return Err(DriverError::TransportUnavailable);
        }
        if self.next_stream >= self.rx_streams.len() {
            return Err(DriverError::TransportUnavailable);
        }
        let rx = self.rx_streams[self.next_stream].clone();
        self.next_stream += 1;
        Ok(FakeLink {
            tx: Rc::clone(&self.tx),
            ops: Rc::clone(&self.ops),
            rx,
            pos: 0,
            fail_writes: self.fail_writes,
        })
    }
}

struct Harness {
    driver: EverdriveSerial<FakeFactory>,
    tx: TxLog,
    ops: OpLog,
    opens: Rc<RefCell<usize>>,
}

/// Build a driver over a fake transport. The first stream serves the
/// constructor, whose early status check consumes a leading `A5 00`;
/// `with_boot` prepends it. The transmit and operation logs are cleared
/// after construction so tests see only their own traffic.
fn mk_driver(rx_streams: Vec<Vec<u8>>, failures: Vec<usize>) -> Harness {
    let tx: TxLog = Rc::new(RefCell::new(Vec::new()));
    let ops: OpLog = Rc::new(RefCell::new(Vec::new()));
    let opens = Rc::new(RefCell::new(0usize));
    let factory = FakeFactory {
        tx: Rc::clone(&tx),
        ops: Rc::clone(&ops),
        rx_streams,
        next_stream: 0,
        failures,
        opens: Rc::clone(&opens),
        fail_writes: false,
    };
    let driver = EverdriveSerial::new(factory).expect("constructing the driver should succeed");
    tx.borrow_mut().clear();
    ops.borrow_mut().clear();
    Harness { driver, tx, ops, opens }
}

fn with_boot(rest: &[u8]) -> Vec<u8> {
    let mut v = vec![0xA5, 0x00];
    v.extend_from_slice(rest);
    v
}

fn frame(op: u8) -> Vec<u8> {
    vec![0x2B, 0xD4, op, !op]
}

fn be16(v: u16) -> Vec<u8> {
    v.to_be_bytes().to_vec()
}

fn be32(v: u32) -> Vec<u8> {
    v.to_be_bytes().to_vec()
}

/// The wire form of a memory write: MEM_WR frame, address, length, a
/// reserved zero, then the payload.
fn mem_wr(addr: u32, data: &[u8]) -> Vec<u8> {
    let mut v = frame(0x1A);
    v.extend(be32(addr));
    v.extend(be32(data.len() as u32));
    v.push(0);
    v.extend_from_slice(data);
    v
}

/// The wire form of a memory-read request.
fn mem_rd(addr: u32, len: u32) -> Vec<u8> {
    let mut v = frame(0x19);
    v.extend(be32(addr));
    v.extend(be32(len));
    v.push(0);
    v
}

const ADDR_FIFO: u32 = 0x1810000;

#[test]
fn construction_does_an_early_status_check() {
    let tx: TxLog = Rc::new(RefCell::new(Vec::new()));
    let ops: OpLog = Rc::new(RefCell::new(Vec::new()));
    let opens = Rc::new(RefCell::new(0usize));
    let factory = FakeFactory {
        tx: Rc::clone(&tx),
        ops: Rc::clone(&ops),
        rx_streams: vec![vec![0xA5, 0x07]],
        next_stream: 0,
        failures: vec![],
        opens: Rc::clone(&opens),
        fail_writes: false,
    };
    let driver = EverdriveSerial::new(factory);
    assert!(driver.is_ok());
    assert_eq!(*opens.borrow(), 1);
    assert_eq!(*tx.borrow(), frame(0x10));
}

#[test]
fn construction_fails_on_wrong_device() {
    let tx: TxLog = Rc::new(RefCell::new(Vec::new()));
    let ops: OpLog = Rc::new(RefCell::new(Vec::new()));
    let opens = Rc::new(RefCell::new(0usize));
    let factory = FakeFactory {
        tx,
        ops,
        rx_streams: vec![vec![0x12, 0x34]],
        next_stream: 0,
        failures: vec![],
        opens,
        fail_writes: false,
    };
    let err = EverdriveSerial::new(factory).err();
    assert_eq!(err, Some(DriverError::ProtocolViolation));
}

#[test]
fn construction_fails_without_transport() {
    let tx: TxLog = Rc::new(RefCell::new(Vec::new()));
    let ops: OpLog = Rc::new(RefCell::new(Vec::new()));
    let opens = Rc::new(RefCell::new(0usize));
    let factory = FakeFactory {
        tx,
        ops,
        rx_streams: vec![],
        next_stream: 0,
        failures: vec![0],
        opens,
        fail_writes: false,
    };
    let err = EverdriveSerial::new(factory).err();
    assert_eq!(err, Some(DriverError::TransportUnavailable));
}

#[test]
fn get_status_returns_low_byte_when_sentinel_matches() {
    let mut h = mk_driver(vec![with_boot(&[0xA5, 0xFF, 0xA5, 0x00])], vec![]);
    assert_eq!(h.driver.get_status(), Ok(255));
    assert_eq!(h.driver.get_status(), Ok(0));
    assert_eq!(*h.tx.borrow(), [frame(0x10), frame(0x10)].concat());
}

#[test]
fn get_status_rejects_wrong_sentinel() {
    let mut h = mk_driver(vec![with_boot(&[0x12, 0x34])], vec![]);
    assert_eq!(h.driver.get_status(), Err(DriverError::ProtocolViolation));
}

#[test]
fn get_status_times_out_on_silence() {
    let mut h = mk_driver(vec![with_boot(&[])], vec![]);
    assert_eq!(h.driver.get_status(), Err(DriverError::Timeout));
}

#[test]
fn get_mode_maps_sentinel_to_service() {
    let mut h = mk_driver(vec![with_boot(&[0xA1, 0x00, 0xFF])], vec![]);
    assert_eq!(h.driver.get_mode(), Ok(Mode::Service));
    assert_eq!(h.driver.get_mode(), Ok(Mode::App));
    assert_eq!(h.driver.get_mode(), Ok(Mode::App));
    assert_eq!(*h.tx.borrow(), [frame(0x11), frame(0x11), frame(0x11)].concat());
}

#[test]
fn set_mode_is_idempotent_without_wire_traffic() {
    // The device already reports app mode: only the mode query goes out,
    // no transition command, no reconnect.
    let mut h = mk_driver(vec![with_boot(&[0x00])], vec![]);
    assert_eq!(h.driver.set_mode(Mode::App), Ok(()));
    assert_eq!(*h.tx.borrow(), frame(0x11));
    assert_eq!(*h.opens.borrow(), 1);

    let mut h2 = mk_driver(vec![with_boot(&[0xA1])], vec![]);
    assert_eq!(h2.driver.set_mode(Mode::Service), Ok(()));
    assert_eq!(*h2.tx.borrow(), frame(0x11));
    assert_eq!(*h2.opens.borrow(), 1);
}

#[test]
fn set_mode_reconnects_after_five_failed_attempts() {
    // The transport fails the first 5 reacquisition attempts, then
    // succeeds: set_mode completes having made exactly 6 attempts.
    let mut h = mk_driver(
        vec![with_boot(&[0x00]), vec![0xA5, 0x00]],
        vec![1, 2, 3, 4, 5],
    );
    assert_eq!(h.driver.set_mode(Mode::Service), Ok(()));
    // 1 open for construction + 6 in the reconnect loop.
    assert_eq!(*h.opens.borrow(), 7);
    // Mode query, then IO_RST with a zero argument, then the status
    // exchange on the fresh connection.
    let expected = [frame(0x11), frame(0x12), vec![0x00], frame(0x10)].concat();
    assert_eq!(*h.tx.borrow(), expected);
}

#[test]
fn set_mode_to_app_sends_run_app() {
    let mut h = mk_driver(vec![with_boot(&[0xA1]), vec![0xA5, 0x00]], vec![]);
    assert_eq!(h.driver.set_mode(Mode::App), Ok(()));
    assert_eq!(*h.opens.borrow(), 2);
    let expected = [frame(0x11), frame(0xF1), frame(0x10)].concat();
    assert_eq!(*h.tx.borrow(), expected);
}

#[test]
fn set_mode_gives_up_after_hundred_attempts() {
    let failures: Vec<usize> = (1..=100).collect();
    let mut h = mk_driver(vec![with_boot(&[0x00])], failures);
    assert_eq!(h.driver.set_mode(Mode::Service), Err(DriverError::ReconnectTimeout));
    assert_eq!(*h.opens.borrow(), 101);
    // The transition command went out before the reconnect attempts, and
    // nothing else was ever written.
    let expected = [frame(0x11), frame(0x12), vec![0x00]].concat();
    assert_eq!(*h.tx.borrow(), expected);
}

#[test]
fn set_mode_propagates_unhealthy_device_after_reconnect() {
    // A connection is acquired but the status exchange on it fails: that
    // is surfaced, not absorbed.
    let mut h = mk_driver(vec![with_boot(&[0x00]), vec![0x99, 0x00]], vec![]);
    assert_eq!(h.driver.set_mode(Mode::Service), Err(DriverError::ProtocolViolation));
    // Mode query and transition command on the old connection, one status
    // frame on the acquired-but-unhealthy one.
    let expected = [frame(0x11), frame(0x12), vec![0x00], frame(0x10)].concat();
    assert_eq!(*h.tx.borrow(), expected);
}

#[test]
fn reset_host_sends_mode_code_and_nothing_more() {
    let mut h = mk_driver(vec![with_boot(&[])], vec![]);
    assert_eq!(h.driver.reset_host(ResetMode::Soft), Ok(()));
    assert_eq!(h.driver.reset_host(ResetMode::Off), Ok(()));
    assert_eq!(h.driver.reset_host(ResetMode::Hard), Ok(()));
    let expected = [
        frame(0x29),
        vec![1],
        frame(0x29),
        vec![0],
        frame(0x29),
        vec![2],
    ]
    .concat();
    assert_eq!(*h.tx.borrow(), expected);
}

#[test]
fn write_memory_frames_address_length_and_payload() {
    let mut h = mk_driver(vec![with_boot(&[])], vec![]);
    let data = [1u8, 2, 3, 4, 5];
    assert_eq!(h.driver.write_memory(0x1000000, &data), Ok(()));
    assert_eq!(*h.tx.borrow(), mem_wr(0x1000000, &data));
}

#[test]
fn write_memory_with_empty_buffer_is_wire_silent() {
    let mut h = mk_driver(vec![with_boot(&[])], vec![]);
    assert_eq!(h.driver.write_memory(0x1000000, &[]), Ok(()));
    assert!(h.tx.borrow().is_empty());
    assert!(h.ops.borrow().is_empty());
}

#[test]
fn read_memory_reads_exactly_the_requested_bytes() {
    let mut h = mk_driver(vec![with_boot(&[0xAA, 0xBB, 0xCC])], vec![]);
    assert_eq!(h.driver.read_memory(0x80, 3), Ok(vec![0xAA, 0xBB, 0xCC]));
    assert_eq!(*h.tx.borrow(), mem_rd(0x80, 3));
}

#[test]
fn read_memory_with_empty_buffer_is_wire_silent() {
    let mut h = mk_driver(vec![with_boot(&[])], vec![]);
    assert_eq!(h.driver.read_memory(0x80, 0), Ok(vec![]));
    assert!(h.tx.borrow().is_empty());
    assert!(h.ops.borrow().is_empty());
}

#[test]
fn fifo_operations_use_the_fifo_window() {
    let mut h = mk_driver(vec![with_boot(&[0x6B])], vec![]);
    assert_eq!(h.driver.fifo_write(b"*t"), Ok(()));
    assert_eq!(h.driver.fifo_write_u16(0x1234), Ok(()));
    assert_eq!(h.driver.fifo_write_u32(0xCAFEBABE), Ok(()));
    assert_eq!(h.driver.fifo_write_str("ab"), Ok(()));
    assert_eq!(h.driver.fifo_read(1), Ok(vec![0x6B]));
    let expected = [
        mem_wr(ADDR_FIFO, b"*t"),
        mem_wr(ADDR_FIFO, &be16(0x1234)),
        mem_wr(ADDR_FIFO, &be32(0xCAFEBABE)),
        mem_wr(ADDR_FIFO, &be16(2)),
        mem_wr(ADDR_FIFO, b"ab"),
        mem_rd(ADDR_FIFO, 1),
    ]
    .concat();
    assert_eq!(*h.tx.borrow(), expected);
}

#[test]
fn ack_transfer_sends_three_chunks_for_2500_bytes() {
    // 2500 bytes at a block size of 1024: chunks of 1024, 1024 and 452,
    // each preceded by exactly one status-byte read.
    let mut h = mk_driver(vec![with_boot(&[0, 0, 0])], vec![]);
    let payload: Vec<u8> = (0..2500u32).map(|i| (i % 251) as u8).collect();
    assert_eq!(h.driver.tx_ack(&payload), Ok(()));
    assert_eq!(*h.tx.borrow(), payload);
    assert_eq!(
        *h.ops.borrow(),
        vec![('r', 1), ('w', 1024), ('r', 1), ('w', 1024), ('r', 1), ('w', 452)]
    );
}

#[test]
fn ack_transfer_with_empty_payload_is_wire_silent() {
    let mut h = mk_driver(vec![with_boot(&[])], vec![]);
    assert_eq!(h.driver.tx_ack(&[]), Ok(()));
    assert!(h.tx.borrow().is_empty());
    assert!(h.ops.borrow().is_empty());
}

#[test]
fn ack_transfer_aborts_on_nonzero_status() {
    // A non-zero acknowledgment before chunk 2 aborts after chunk 1; no
    // chunk-2 or chunk-3 bytes are ever written.
    let mut h = mk_driver(vec![with_boot(&[0, 5])], vec![]);
    let payload: Vec<u8> = (0..2500u32).map(|i| (i % 251) as u8).collect();
    assert_eq!(h.driver.tx_ack(&payload), Err(DriverError::ChunkRejected(5)));
    assert_eq!(*h.tx.borrow(), payload[..1024].to_vec());
    assert_eq!(*h.ops.borrow(), vec![('r', 1), ('w', 1024), ('r', 1)]);
}

#[test]
fn string_round_trip_through_loopback() {
    for text in ["", "hello", "h\u{00e9}llo w\u{00f6}rld \u{2603}", "USB:\u{1F3AE}"] {
        let mut a = mk_driver(vec![with_boot(&[])], vec![]);
        assert_eq!(a.driver.tx_str(text), Ok(()));
        let wire = a.tx.borrow().clone();
        assert_eq!(wire.len(), 2 + text.len());

        let mut rx = vec![0xA5, 0x00];
        rx.extend_from_slice(&wire);
        let mut b = mk_driver(vec![rx], vec![]);
        let back = b.driver.rx_str().expect("the payload should decode");
        assert_eq!(back, text);
    }
}

#[test]
fn rx_str_decodes_multibyte_utf8_into_characters() {
    // Two bytes of UTF-8 come back as one character: the response really
    // is decoded, not carried as raw bytes.
    let mut h = mk_driver(vec![with_boot(&[0x00, 0x02, 0xC3, 0xA9])], vec![]);
    let s = h.driver.rx_str().expect("valid UTF-8 should decode");
    assert_eq!(s, "\u{00e9}");
    assert_eq!(s.chars().count(), 1);
    assert_eq!(s.len(), 2);
}

#[test]
fn rx_str_rejects_invalid_utf8() {
    let mut h = mk_driver(vec![with_boot(&[0x00, 0x02, 0xFF, 0xFE])], vec![]);
    assert_eq!(h.driver.rx_str(), Err(DriverError::MalformedResponse));
}

#[test]
fn load_game_drives_the_full_sequence() {
    let game = [9u8, 8, 7, 6, 5];
    let rx = with_boot(&[0x00, b'r', b'k', 0x00]);
    let mut h = mk_driver(vec![rx], vec![]);
    assert_eq!(h.driver.load_game("abc", &game, false), Ok(()));
    let expected = [
        frame(0x11),
        frame(0x29),
        vec![1],
        mem_wr(0, &game),
        frame(0x29),
        vec![0],
        mem_wr(ADDR_FIFO, b"*t"),
        mem_wr(ADDR_FIFO, b"*g"),
        mem_wr(ADDR_FIFO, &be32(5)),
        mem_wr(ADDR_FIFO, &be16(7)),
        mem_wr(ADDR_FIFO, b"USB:abc"),
    ]
    .concat();
    assert_eq!(*h.tx.borrow(), expected);
    assert_eq!(*h.opens.borrow(), 1);
}

#[test]
fn load_game_skipping_fpga_sends_the_bypass_command() {
    let game = [1u8, 2];
    let rx = with_boot(&[0x00, b'r', b'k', 0x00]);
    let mut h = mk_driver(vec![rx], vec![]);
    assert_eq!(h.driver.load_game("x", &game, true), Ok(()));
    let expected = [
        frame(0x11),
        frame(0x29),
        vec![1],
        mem_wr(0, &game),
        frame(0x29),
        vec![0],
        mem_wr(ADDR_FIFO, b"*t"),
        mem_wr(ADDR_FIFO, b"*u"),
        mem_wr(ADDR_FIFO, b"*g"),
        mem_wr(ADDR_FIFO, &be32(2)),
        mem_wr(ADDR_FIFO, &be16(5)),
        mem_wr(ADDR_FIFO, b"USB:x"),
    ]
    .concat();
    assert_eq!(*h.tx.borrow(), expected);
}

#[test]
fn load_game_stops_on_wrong_ready_byte() {
    // The device answers 'x' instead of 'r' after the ROM write: the load
    // fails with UnexpectedResponse and no FIFO command is ever sent.
    let game = [9u8, 8, 7];
    let rx = with_boot(&[0x00, b'x']);
    let mut h = mk_driver(vec![rx], vec![]);
    assert_eq!(
        h.driver.load_game("abc", &game, false),
        Err(DriverError::UnexpectedResponse(b'x'))
    );
    let expected = [
        frame(0x11),
        frame(0x29),
        vec![1],
        mem_wr(0, &game),
        frame(0x29),
        vec![0],
    ]
    .concat();
    assert_eq!(*h.tx.borrow(), expected);
}

#[test]
fn load_game_stops_on_wrong_test_byte() {
    let game = [9u8];
    let rx = with_boot(&[0x00, b'r', b'q']);
    let mut h = mk_driver(vec![rx], vec![]);
    assert_eq!(
        h.driver.load_game("abc", &game, false),
        Err(DriverError::UnexpectedResponse(b'q'))
    );
    let expected = [
        frame(0x11),
        frame(0x29),
        vec![1],
        mem_wr(0, &game),
        frame(0x29),
        vec![0],
        mem_wr(ADDR_FIFO, b"*t"),
    ]
    .concat();
    assert_eq!(*h.tx.borrow(), expected);
}

#[test]
fn load_fpga_from_slice_gates_chunks_and_checks_status() {
    let data: Vec<u8> = (0..1500u32).map(|i| (i % 13) as u8) .collect();
    let rx = with_boot(&[0x00, 0, 0, 0xA5, 0x00]);
    let mut h = mk_driver(vec![rx], vec![]);
    assert_eq!(h.driver.load_fpga_from_slice(&data), Ok(()));
    let expected = [
        frame(0x11),
        frame(0x29),
        vec![1],
        frame(0x1E),
        be32(1500),
        data.clone(),
        frame(0x10),
    ]
    .concat();
    assert_eq!(*h.tx.borrow(), expected);
}

#[test]
fn load_fpga_from_slice_reports_rejected_chunk() {
    // The second acknowledgment is non-zero: the transfer stops after the
    // first block, and no later block's bytes ever reach the wire.
    let data: Vec<u8> = (0..1500u32).map(|i| (i % 7) as u8).collect();
    let rx = with_boot(&[0x00, 0, 9]);
    let mut h = mk_driver(vec![rx], vec![]);
    assert_eq!(
        h.driver.load_fpga_from_slice(&data),
        Err(DriverError::ChunkRejected(9))
    );
    let expected = [
        frame(0x11),
        frame(0x29),
        vec![1],
        frame(0x1E),
        be32(1500),
        data[..1024].to_vec(),
    ]
    .concat();
    assert_eq!(*h.tx.borrow(), expected);
}

#[test]
fn load_fpga_from_slice_reports_device_rejection() {
    let data = [1u8, 2, 3];
    let rx = with_boot(&[0x00, 0, 0xA5, 0x33]);
    let mut h = mk_driver(vec![rx], vec![]);
    assert_eq!(
        h.driver.load_fpga_from_slice(&data),
        Err(DriverError::DeviceRejected(0x33))
    );
}

#[test]
fn load_fpga_from_sd_reports_missing_file_before_the_command() {
    // The file lookup fails: the error carries the device's code and the
    // FPGA-from-SD command is never written.
    let mut h = mk_driver(vec![with_boot(&[0x00, 0x05])], vec![]);
    assert_eq!(
        h.driver.load_fpga_from_sd("gone.fpg"),
        Err(DriverError::FileError(5))
    );
    let path = "gone.fpg";
    let expected = [
        frame(0x11),
        frame(0x29),
        vec![1],
        frame(0xD0),
        be16(path.len() as u16),
        path.as_bytes().to_vec(),
    ]
    .concat();
    assert_eq!(*h.tx.borrow(), expected);
}

#[test]
fn load_fpga_from_sd_reports_device_rejection() {
    let mut rx_tail = vec![0x00, 0x00];
    rx_tail.extend(metadata_bytes(0x800, 0, 0, 0, "core.fpg"));
    rx_tail.extend([0xA5, 0x44]);
    let mut h = mk_driver(vec![with_boot(&rx_tail)], vec![]);
    assert_eq!(
        h.driver.load_fpga_from_sd("core.fpg"),
        Err(DriverError::DeviceRejected(0x44))
    );
}

#[test]
fn load_fpga_from_flash_sends_address_and_checks_status() {
    let rx = with_boot(&[0x00, 0xA5, 0x00]);
    let mut h = mk_driver(vec![rx], vec![]);
    assert_eq!(h.driver.load_fpga_from_flash(0x40000), Ok(()));
    let expected = [
        frame(0x11),
        frame(0x29),
        vec![1],
        frame(0x20),
        be32(0x40000),
        frame(0x10),
    ]
    .concat();
    assert_eq!(*h.tx.borrow(), expected);
}

/// A file-metadata record as the device sends it.
fn metadata_bytes(size: u32, date: u16, time: u16, attrib: u8, name: &str) -> Vec<u8> {
    let mut v = be32(size);
    v.extend(be16(date));
    v.extend(be16(time));
    v.push(attrib);
    v.extend(be16(name.len() as u16));
    v.extend_from_slice(name.as_bytes());
    v
}

#[test]
fn get_file_metadata_decodes_every_field() {
    let mut rx_tail = vec![0x00];
    rx_tail.extend(metadata_bytes(0x123456, 0x5432, 0x8001, 0x20, "menu.bin"));
    let mut h = mk_driver(vec![with_boot(&rx_tail)], vec![]);
    let meta = h
        .driver
        .get_file_metadata("MEGA/menu.bin")
        .expect("metadata should decode");
    assert_eq!(meta.size, 0x123456);
    assert_eq!(meta.date, 0x5432);
    assert_eq!(meta.time, 0x8001);
    assert_eq!(meta.attrib, 0x20);
    assert_eq!(meta.name, "menu.bin");
    let path = "MEGA/menu.bin";
    let mut expected = frame(0xD0);
    expected.extend(be16(path.len() as u16));
    expected.extend_from_slice(path.as_bytes());
    assert_eq!(*h.tx.borrow(), expected);
}

#[test]
fn get_file_metadata_reports_device_code() {
    let mut h = mk_driver(vec![with_boot(&[0x04])], vec![]);
    assert_eq!(
        h.driver.get_file_metadata("nope.bin"),
        Err(DriverError::FileError(4))
    );
}

#[test]
fn open_file_sends_mode_and_path_then_checks_status() {
    let mut h = mk_driver(vec![with_boot(&[0xA5, 0x00])], vec![]);
    assert_eq!(h.driver.open_file("save.srm", 0x01), Ok(()));
    let mut expected = frame(0xC9);
    expected.push(0x01);
    expected.extend(be16(8));
    expected.extend_from_slice(b"save.srm");
    expected.extend(frame(0x10));
    assert_eq!(*h.tx.borrow(), expected);
}

#[test]
fn open_file_reports_device_rejection() {
    let mut h = mk_driver(vec![with_boot(&[0xA5, 0x09])], vec![]);
    assert_eq!(
        h.driver.open_file("save.srm", 0x02),
        Err(DriverError::DeviceRejected(9))
    );
}

#[test]
fn load_fpga_from_sd_uses_the_file_size() {
    let mut rx_tail = vec![0x00, 0x00];
    rx_tail.extend(metadata_bytes(0x1000, 0, 0, 0, "core.fpg"));
    rx_tail.extend([0xA5, 0x00]);
    let mut h = mk_driver(vec![with_boot(&rx_tail)], vec![]);
    assert_eq!(h.driver.load_fpga_from_sd("core.fpg"), Ok(()));
    let path = "core.fpg";
    let expected = [
        frame(0x11),
        frame(0x29),
        vec![1],
        frame(0xD0),
        be16(path.len() as u16),
        path.as_bytes().to_vec(),
        frame(0x1F),
        be32(0x1000),
        vec![0],
        frame(0x10),
    ]
    .concat();
    assert_eq!(*h.tx.borrow(), expected);
}

#[test]
fn write_failure_surfaces_as_io_error() {
    let tx: TxLog = Rc::new(RefCell::new(Vec::new()));
    let ops: OpLog = Rc::new(RefCell::new(Vec::new()));
    let opens = Rc::new(RefCell::new(0usize));
    let factory = FakeFactory {
        tx,
        ops,
        rx_streams: vec![vec![0xA5, 0x00]],
        next_stream: 0,
        failures: vec![],
        opens,
        fail_writes: true,
    };
    let err = EverdriveSerial::new(factory).err();
    assert_eq!(err, Some(DriverError::IOError));
}
