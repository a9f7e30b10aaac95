use vstd::prelude::*;
use vstd::slice::slice_subrange;
use vstd::string::StringExecFns;
use vstd::utf8::{decode_utf8, encode_utf8, is_ascii_chars, is_ascii_chars_encode_utf8,
    valid_utf8};

use crate::link::{SerialFactory, SerialLink};
use crate::types::{DriverError, Mode, ResetMode};
use crate::types::FileMetadata;
use crate::wire::{be16_bytes, be32_bytes, command_frame, lemma_encode_utf8_concat, lemma_u16_of_be_parts, mode_of_byte, parse_status, spec_be16,
    spec_be32, spec_fifo_str_bytes, spec_fpga_fla_tail, spec_fpga_usb_head, spec_fpga_usb_tail,
    spec_frame,
    spec_load_game_prefix, spec_load_game_tail, spec_mem_preamble, spec_mem_wr_bytes,
    spec_metadata_at, spec_metadata_len, spec_mode_of_byte, spec_n_chunks, spec_transition_bytes,
    spec_str_bytes_at, spec_str_len_at, spec_str_payload, spec_u16_of_be, spec_u32_of_be,
    u16_of_be, u32_of_be,
    ACK_BLOCK_SIZE, ADDR_FIFO, ADDR_ROM, CMD_F_FINFO, CMD_F_FOPN, CMD_FPG_FLA, CMD_FPG_SDC, CMD_FPG_USB,
    FIFO_TEST_ACK, ROM_READY_ACK,
    CMD_GET_MODE, CMD_HOST_RST, CMD_IO_RST, CMD_MEM_RD, CMD_MEM_WR, CMD_RUN_APP, CMD_STATUS,
    STATUS_SENTINEL};

verus! {

/// The driver for the Mega Everdrive Pro serial interface.
///
/// It owns the current connection; a mode switch reboots the device and the
/// driver then asks the factory for a fresh one.
pub struct EverdriveSerial<F: SerialFactory> {
    factory: F,
    serial: F::Port,
}

/// Relies on String::from_utf8: it succeeds exactly on valid UTF-8, and
/// then returns the string those bytes encode.
#[verifier::external_body]
fn string_from_utf8(bytes: Vec<u8>) -> (r: Option<String>)
    ensures
        r is Some <==> valid_utf8(bytes@),
        r is Some ==> encode_utf8(r->0@) == bytes@ && r->0@ == decode_utf8(bytes@),
{
    String::from_utf8(bytes).ok()
}

/// One STATUS exchange on a given connection: send the STATUS frame, flush,
/// read the 16-bit response word, and check its sentinel.
fn status_exchange<P: SerialLink>(port: &mut P) -> (r: Result<u8, DriverError>)
    ensures
        final(port).timeout_ms() == old(port).timeout_ms(),
        r is Ok ==> old(port).rx().len() >= 2 && old(port).rx()[0] == STATUS_SENTINEL
            && r->Ok_0 == old(port).rx()[1]
            && final(port).tx() == old(port).tx() + spec_frame(CMD_STATUS)
            && final(port).rx() == old(port).rx().skip(2),
        r is Err && r->Err_0 is ProtocolViolation ==> old(port).rx().len() >= 2
            && old(port).rx()[0] != STATUS_SENTINEL
            && final(port).tx() == old(port).tx() + spec_frame(CMD_STATUS)
            && final(port).rx() == old(port).rx().skip(2),
        r is Err ==> (r->Err_0 is ProtocolViolation || r->Err_0 is Timeout
            || r->Err_0 is IOError),
{
    let frame = command_frame(CMD_STATUS);
    match port.write_all(frame.as_slice()) {
        Ok(()) => {},
        Err(e) => {
            return Err(e);
        },
    }
    match port.flush() {
        Ok(()) => {},
        Err(e) => {
            return Err(e);
        },
    }
    let bytes = match port.read_exact(2) {
        Ok(v) => v,
        Err(e) => {
            return Err(e);
        },
    };
    let msg = u16_of_be(bytes[0], bytes[1]);
    proof {
        assert(seq![bytes@[0], bytes@[1]] =~= old(port).rx().take(2));
        lemma_u16_of_be_parts(bytes@[0], bytes@[1]);
    }
    parse_status(msg)
}

impl<F: SerialFactory> EverdriveSerial<F> {
    /// Every byte written to the wire on the current connection.
    pub closed spec fn tx(&self) -> Seq<u8> {
        self.serial.tx()
    }

    /// The bytes the device delivers on the current connection, not yet
    /// consumed by a read.
    pub closed spec fn rx(&self) -> Seq<u8> {
        self.serial.rx()
    }

    /// How many connections have been requested from the factory.
    pub closed spec fn attempts(&self) -> nat {
        self.factory.attempts()
    }

    /// The current connection's read timeout, in milliseconds.
    pub closed spec fn timeout_ms(&self) -> u64 {
        self.serial.timeout_ms()
    }

    /// A well-formed driver keeps its connection at the steady-state read
    /// timeout.
    pub open spec fn wf(&self) -> bool {
        self.timeout_ms() == 1000
    }

    /// Send the four-byte Command Frame for opcode `cmd`.
    pub fn tx_cmd(&mut self, cmd: u8) -> (r: Result<(), DriverError>)
        ensures
            final(self).rx() == old(self).rx(),
            final(self).timeout_ms() == old(self).timeout_ms(),
            final(self).attempts() == old(self).attempts(),
            r is Ok ==> final(self).tx() == old(self).tx() + spec_frame(cmd),
            r is Err ==> (r->Err_0 is Timeout || r->Err_0 is IOError),
    {
        let data = command_frame(cmd);
        match self.serial.write_all(data.as_slice()) {
            Ok(()) => Ok(()),
            Err(e) => Err(e),
        }
    }

    /// Send one byte.
    pub fn tx_u8(&mut self, v: u8) -> (r: Result<(), DriverError>)
        ensures
            final(self).rx() == old(self).rx(),
            final(self).timeout_ms() == old(self).timeout_ms(),
            final(self).attempts() == old(self).attempts(),
            r is Ok ==> final(self).tx() == old(self).tx() + seq![v],
            r is Err ==> (r->Err_0 is Timeout || r->Err_0 is IOError),
    {
        let mut data: Vec<u8> = Vec::new();
        data.push(v);
        proof {
            assert(data@ =~= seq![v]);
        }
        match self.serial.write_all(data.as_slice()) {
            Ok(()) => Ok(()),
            Err(e) => Err(e),
        }
    }

    /// Send a 16-bit value, big-endian.
    pub fn tx_u16(&mut self, v: u16) -> (r: Result<(), DriverError>)
        ensures
            final(self).rx() == old(self).rx(),
            final(self).timeout_ms() == old(self).timeout_ms(),
            final(self).attempts() == old(self).attempts(),
            r is Ok ==> final(self).tx() == old(self).tx() + spec_be16(v),
            r is Err ==> (r->Err_0 is Timeout || r->Err_0 is IOError),
    {
        let data = be16_bytes(v);
        match self.serial.write_all(data.as_slice()) {
            Ok(()) => Ok(()),
            Err(e) => Err(e),
        }
    }

    /// Send a 32-bit value, big-endian.
    pub fn tx_u32(&mut self, v: u32) -> (r: Result<(), DriverError>)
        ensures
            final(self).rx() == old(self).rx(),
            final(self).timeout_ms() == old(self).timeout_ms(),
            final(self).attempts() == old(self).attempts(),
            r is Ok ==> final(self).tx() == old(self).tx() + spec_be32(v),
            r is Err ==> (r->Err_0 is Timeout || r->Err_0 is IOError),
    {
        let data = be32_bytes(v);
        match self.serial.write_all(data.as_slice()) {
            Ok(()) => Ok(()),
            Err(e) => Err(e),
        }
    }

    /// Force buffered writes out to the wire; the protocol's post-write
    /// settling point between a command and its response.
    pub fn flush_cmd(&mut self) -> (r: Result<(), DriverError>)
        ensures
            final(self).tx() == old(self).tx(),
            final(self).rx() == old(self).rx(),
            final(self).timeout_ms() == old(self).timeout_ms(),
            final(self).attempts() == old(self).attempts(),
            r is Err ==> r->Err_0 is IOError,
    {
        match self.serial.flush() {
            Ok(()) => Ok(()),
            Err(e) => Err(e),
        }
    }

    /// Receive one byte.
    pub fn rx_u8(&mut self) -> (r: Result<u8, DriverError>)
        ensures
            final(self).tx() == old(self).tx(),
            final(self).timeout_ms() == old(self).timeout_ms(),
            final(self).attempts() == old(self).attempts(),
            r is Ok ==> old(self).rx().len() >= 1 && r->Ok_0 == old(self).rx()[0]
                && final(self).rx() == old(self).rx().skip(1),
            r is Err ==> (r->Err_0 is Timeout || r->Err_0 is IOError),
    {
        match self.serial.read_exact(1) {
            Ok(v) => Ok(v[0]),
            Err(e) => Err(e),
        }
    }

    /// Receive a 16-bit value, big-endian.
    pub fn rx_u16(&mut self) -> (r: Result<u16, DriverError>)
        ensures
            final(self).tx() == old(self).tx(),
            final(self).timeout_ms() == old(self).timeout_ms(),
            final(self).attempts() == old(self).attempts(),
            r is Ok ==> old(self).rx().len() >= 2
                && r->Ok_0 == spec_u16_of_be(old(self).rx().take(2))
                && final(self).rx() == old(self).rx().skip(2),
            r is Err ==> (r->Err_0 is Timeout || r->Err_0 is IOError),
    {
        match self.serial.read_exact(2) {
            Ok(v) => {
                proof {
                    assert(seq![v@[0], v@[1]] =~= old(self).rx().take(2));
                }
                Ok(u16_of_be(v[0], v[1]))
            },
            Err(e) => Err(e),
        }
    }

    /// Receive a 32-bit value, big-endian.
    pub fn rx_u32(&mut self) -> (r: Result<u32, DriverError>)
        ensures
            final(self).tx() == old(self).tx(),
            final(self).timeout_ms() == old(self).timeout_ms(),
            final(self).attempts() == old(self).attempts(),
            r is Ok ==> old(self).rx().len() >= 4
                && r->Ok_0 == spec_u32_of_be(old(self).rx().take(4))
                && final(self).rx() == old(self).rx().skip(4),
            r is Err ==> (r->Err_0 is Timeout || r->Err_0 is IOError),
    {
        match self.serial.read_exact(4) {
            Ok(v) => {
                proof {
                    assert(seq![v@[0], v@[1], v@[2], v@[3]] =~= old(self).rx().take(4));
                }
                Ok(u32_of_be(v[0], v[1], v[2], v[3]))
            },
            Err(e) => Err(e),
        }
    }

    /// Send a string: a 16-bit big-endian byte-length prefix, then the raw
    /// UTF-8 bytes, no terminator.
    pub fn tx_str(&mut self, s: &str) -> (r: Result<(), DriverError>)
        requires
            encode_utf8(s@).len() <= 0xFFFF,
        ensures
            final(self).rx() == old(self).rx(),
            final(self).timeout_ms() == old(self).timeout_ms(),
            final(self).attempts() == old(self).attempts(),
            r is Ok ==> final(self).tx() == old(self).tx() + spec_str_payload(s@),
            r is Err ==> (r->Err_0 is Timeout || r->Err_0 is IOError),
    {
        let len = s.len();
        match self.tx_u16(len as u16) {
            Ok(()) => {},
            Err(e) => {
                return Err(e);
            },
        }
        match self.serial.write_all(s.as_bytes()) {
            Ok(()) => Ok(()),
            Err(e) => Err(e),
        }
    }

    /// Receive a string: a 16-bit big-endian byte length, then that many
    /// bytes, which must be valid UTF-8.
    pub fn rx_str(&mut self) -> (r: Result<String, DriverError>)
        ensures
            final(self).tx() == old(self).tx(),
            final(self).timeout_ms() == old(self).timeout_ms(),
            final(self).attempts() == old(self).attempts(),
            r is Ok ==> old(self).rx().len() >= 2 + spec_str_len_at(old(self).rx(), 0)
                && valid_utf8(spec_str_bytes_at(old(self).rx(), 0))
                && r->Ok_0@ == decode_utf8(spec_str_bytes_at(old(self).rx(), 0))
                && final(self).rx() == old(self).rx().skip(2 + spec_str_len_at(old(self).rx(), 0)),
            r is Err && r->Err_0 is MalformedResponse ==> old(self).rx().len() >= 2
                + spec_str_len_at(old(self).rx(), 0)
                && !valid_utf8(spec_str_bytes_at(old(self).rx(), 0))
                && final(self).rx() == old(self).rx().skip(2 + spec_str_len_at(old(self).rx(), 0)),
            r is Err ==> (r->Err_0 is MalformedResponse || r->Err_0 is Timeout
                || r->Err_0 is IOError),
    {
        let n = match self.rx_u16() {
            Ok(n) => n,
            Err(e) => {
                return Err(e);
            },
        };
        proof {
            assert(old(self).rx().take(2) =~= old(self).rx().subrange(0, 2));
        }
        let bytes = match self.serial.read_exact(n as usize) {
            Ok(v) => v,
            Err(e) => {
                return Err(e);
            },
        };
        proof {
            assert(bytes@ =~= spec_str_bytes_at(old(self).rx(), 0));
            assert(self.rx() =~= old(self).rx().skip(2 + spec_str_len_at(old(self).rx(), 0)));
        }
        match string_from_utf8(bytes) {
            Some(s) => Ok(s),
            None => Err(DriverError::MalformedResponse),
        }
    }

    /// Get the current operating mode of the cartridge.
    pub fn get_mode(&mut self) -> (r: Result<Mode, DriverError>)
        ensures
            final(self).timeout_ms() == old(self).timeout_ms(),
            final(self).attempts() == old(self).attempts(),
            r is Ok ==> old(self).rx().len() >= 1
                && r->Ok_0 == spec_mode_of_byte(old(self).rx()[0])
                && final(self).tx() == old(self).tx() + spec_frame(CMD_GET_MODE)
                && final(self).rx() == old(self).rx().skip(1),
            r is Err ==> (r->Err_0 is Timeout || r->Err_0 is IOError),
    {
        match self.tx_cmd(CMD_GET_MODE) {
            Ok(()) => {},
            Err(e) => {
                return Err(e);
            },
        }
        match self.flush_cmd() {
            Ok(()) => {},
            Err(e) => {
                return Err(e);
            },
        }
        let b = match self.rx_u8() {
            Ok(b) => b,
            Err(e) => {
                return Err(e);
            },
        };
        Ok(mode_of_byte(b))
    }

    /// Get the return code of the previous operation.
    ///
    /// This is cleared once read; 0 indicates success. The response's high
    /// byte must equal the sentinel, or the device is not responding sanely.
    pub fn get_status(&mut self) -> (r: Result<u8, DriverError>)
        ensures
            final(self).timeout_ms() == old(self).timeout_ms(),
            final(self).attempts() == old(self).attempts(),
            r is Ok ==> old(self).rx().len() >= 2 && old(self).rx()[0] == STATUS_SENTINEL
                && r->Ok_0 == old(self).rx()[1]
                && final(self).tx() == old(self).tx() + spec_frame(CMD_STATUS)
                && final(self).rx() == old(self).rx().skip(2),
            r is Err && r->Err_0 is ProtocolViolation ==> old(self).rx().len() >= 2
                && old(self).rx()[0] != STATUS_SENTINEL
                && final(self).tx() == old(self).tx() + spec_frame(CMD_STATUS)
                && final(self).rx() == old(self).rx().skip(2),
            r is Err ==> (r->Err_0 is ProtocolViolation || r->Err_0 is Timeout
                || r->Err_0 is IOError),
    {
        status_exchange(&mut self.serial)
    }

    /// Run a STATUS exchange and require the reported code to be zero.
    fn check_status(&mut self) -> (r: Result<(), DriverError>)
        ensures
            final(self).timeout_ms() == old(self).timeout_ms(),
            final(self).attempts() == old(self).attempts(),
            r is Ok ==> old(self).rx().len() >= 2 && old(self).rx()[0] == STATUS_SENTINEL
                && old(self).rx()[1] == 0
                && final(self).tx() == old(self).tx() + spec_frame(CMD_STATUS)
                && final(self).rx() == old(self).rx().skip(2),
            r is Err && r->Err_0 is DeviceRejected ==> old(self).rx().len() >= 2
                && old(self).rx()[0] == STATUS_SENTINEL && old(self).rx()[1] != 0
                && r->Err_0 == DriverError::DeviceRejected(old(self).rx()[1])
                && final(self).tx() == old(self).tx() + spec_frame(CMD_STATUS)
                && final(self).rx() == old(self).rx().skip(2),
            r is Err && r->Err_0 is ProtocolViolation ==> old(self).rx().len() >= 2
                && old(self).rx()[0] != STATUS_SENTINEL
                && final(self).tx() == old(self).tx() + spec_frame(CMD_STATUS)
                && final(self).rx() == old(self).rx().skip(2),
            r is Err ==> (r->Err_0 is DeviceRejected || r->Err_0 is ProtocolViolation
                || r->Err_0 is Timeout || r->Err_0 is IOError),
    {
        match self.get_status() {
            Ok(code) => {
                if code != 0 {
                    Err(DriverError::DeviceRejected(code))
                } else {
                    Ok(())
                }
            },
            Err(e) => Err(e),
        }
    }

    /// Send a payload in acknowledgment-gated blocks: before each block one
    /// status byte is read, and only a zero authorizes sending the block.
    /// This is the protocol's backpressure mechanism for FPGA images.
    pub fn tx_ack(&mut self, data: &[u8]) -> (r: Result<(), DriverError>)
        ensures
            final(self).timeout_ms() == old(self).timeout_ms(),
            final(self).attempts() == old(self).attempts(),
            data@.len() == 0 ==> r is Ok && final(self).tx() == old(self).tx() && final(self).rx()
                == old(self).rx(),
            r is Ok ==> spec_n_chunks(data@.len() as int) <= old(self).rx().len()
                && (forall|j: int|
                    0 <= j < spec_n_chunks(data@.len() as int) ==> old(self).rx()[j] == 0)
                && final(self).tx() == old(self).tx() + data@
                && final(self).rx() == old(self).rx().skip(spec_n_chunks(data@.len() as int)),
            r is Err && r->Err_0 is ChunkRejected ==> exists|k: int|
                0 <= k < spec_n_chunks(data@.len() as int) && k < old(self).rx().len()
                    && old(self).rx()[k] != 0 && (forall|j: int|
                    0 <= j < k ==> old(self).rx()[j] == 0) && r->Err_0
                    == DriverError::ChunkRejected(old(self).rx()[k]) && final(self).tx() == old(self).tx() + data@.take(1024 * k) && final(self).rx() == old(self).rx().skip(k + 1),
            r is Err ==> (r->Err_0 is ChunkRejected || r->Err_0 is Timeout
                || r->Err_0 is IOError),
    {
        let ghost n = spec_n_chunks(data@.len() as int);
        let mut off: usize = 0;
        let ghost mut i: int = 0;
        while off < data.len()
            invariant
                0 <= i,
                off as int == if 1024 * i <= data@.len() as int {
                    1024 * i
                } else {
                    data@.len() as int
                },
                off <= data@.len(),
                1024 * i <= data@.len() as int + 1023,
                i <= old(self).rx().len(),
                forall|j: int| 0 <= j < i ==> old(self).rx()[j] == 0,
                self.tx() == old(self).tx() + data@.take(off as int),
                self.rx() == old(self).rx().skip(i),
                self.timeout_ms() == old(self).timeout_ms(),
                self.attempts() == old(self).attempts(),
            decreases data@.len() - off,
        {
            proof {
                assert(off as int == 1024 * i);
                assert(1024 * i < data@.len() as int);
                assert(i < (data@.len() as int + 1023) / 1024) by (nonlinear_arith)
                    requires
                        0 <= i,
                        1024 * i < data@.len() as int,
                ;
                assert(i < spec_n_chunks(data@.len() as int));
            }
            let resp = match self.rx_u8() {
                Ok(b) => b,
                Err(e) => {
                    return Err(e);
                },
            };
            if resp != 0 {
                proof {
                    assert(old(self).rx()[i] == resp);
                    assert(exists|k: int|
                        0 <= k < spec_n_chunks(data@.len() as int) && k < old(self).rx().len()
                            && old(self).rx()[k] != 0 && (forall|j: int|
                            0 <= j < k ==> old(self).rx()[j] == 0)
                            && DriverError::ChunkRejected(resp) == DriverError::ChunkRejected(
                            old(self).rx()[k],
                        ) && self.tx() == old(self).tx() + data@.take(1024 * k) && self.rx()
                            == old(self).rx().skip(k + 1)) by {
                        assert(self.rx() =~= old(self).rx().skip(i + 1));
                        assert(0 <= i < spec_n_chunks(data@.len() as int) && i < old(self).rx().len() && old(self).rx()[i] != 0 && (forall|j: int|
                            0 <= j < i ==> old(self).rx()[j] == 0)
                            && DriverError::ChunkRejected(resp) == DriverError::ChunkRejected(
                            old(self).rx()[i],
                        ) && self.tx() == old(self).tx() + data@.take(1024 * i) && self.rx()
                            == old(self).rx().skip(i + 1));
                    }
                }
                return Err(DriverError::ChunkRejected(resp));
            }
            let end = if data.len() - off < ACK_BLOCK_SIZE {
                data.len()
            } else {
                off + ACK_BLOCK_SIZE
            };
            let chunk = slice_subrange(data, off, end);
            match self.serial.write_all(chunk) {
                Ok(()) => {},
                Err(e) => {
                    return Err(e);
                },
            }
            match self.flush_cmd() {
                Ok(()) => {},
                Err(e) => {
                    return Err(e);
                },
            }
            proof {
                assert(self.tx() =~= old(self).tx() + data@.take(end as int));
                assert(end as int == if 1024 * (i + 1) <= data@.len() as int {
                    1024 * (i + 1)
                } else {
                    data@.len() as int
                });
                i = i + 1;
            }
            off = end;
        }
        proof {
            assert(off as int == data@.len() as int);
            assert((1024 * i == data@.len() as int) || (((data@.len() as int) < 1024 * i) && (
            1024 * i <= data@.len() as int + 1023)));
            assert(i == (data@.len() as int + 1023) / 1024) by (nonlinear_arith)
                requires
                    0 <= i,
                    (1024 * i == data@.len() as int) || (((data@.len() as int) < 1024 * i) && (
                    1024 * i <= data@.len() as int + 1023)),
            ;
            assert(i == n);
            assert(self.tx() =~= old(self).tx() + data@);
            if data@.len() == 0 {
                assert(self.tx() =~= old(self).tx());
                assert(self.rx() =~= old(self).rx());
            }
        }
        Ok(())
    }

    /// Reset the Mega Drive. Fire-and-forget by protocol design: no
    /// response is read.
    pub fn reset_host(&mut self, mode: ResetMode) -> (r: Result<(), DriverError>)
        ensures
            final(self).rx() == old(self).rx(),
            final(self).timeout_ms() == old(self).timeout_ms(),
            final(self).attempts() == old(self).attempts(),
            r is Ok ==> final(self).tx() == old(self).tx() + spec_frame(CMD_HOST_RST) + seq![
                mode.code(),
            ],
            r is Err ==> (r->Err_0 is Timeout || r->Err_0 is IOError),
    {
        match self.tx_cmd(CMD_HOST_RST) {
            Ok(()) => {},
            Err(e) => {
                return Err(e);
            },
        }
        match self.tx_u8(mode.command()) {
            Ok(()) => {},
            Err(e) => {
                return Err(e);
            },
        }
        self.flush_cmd()
    }

    /// Write to the Mega Drive's memory: the command, a 32-bit address, a
    /// 32-bit length and a reserved zero byte, then the raw payload. An
    /// empty payload puts nothing on the wire.
    pub fn write_memory(&mut self, addr: u32, data: &[u8]) -> (r: Result<(), DriverError>)
        requires
            data@.len() <= 0xFFFFFFFF,
        ensures
            final(self).rx() == old(self).rx(),
            final(self).timeout_ms() == old(self).timeout_ms(),
            final(self).attempts() == old(self).attempts(),
            data@.len() == 0 ==> r is Ok && final(self).tx() == old(self).tx(),
            r is Ok ==> final(self).tx() == old(self).tx() + spec_mem_wr_bytes(addr, data@),
            r is Err ==> (r->Err_0 is Timeout || r->Err_0 is IOError),
    {
        if data.len() == 0 {
            return Ok(());
        }
        match self.tx_cmd(CMD_MEM_WR) {
            Ok(()) => {},
            Err(e) => {
                return Err(e);
            },
        }
        match self.tx_u32(addr) {
            Ok(()) => {},
            Err(e) => {
                return Err(e);
            },
        }
        match self.tx_u32(data.len() as u32) {
            Ok(()) => {},
            Err(e) => {
                return Err(e);
            },
        }
        match self.tx_u8(0) {
            Ok(()) => {},
            Err(e) => {
                return Err(e);
            },
        }
        match self.flush_cmd() {
            Ok(()) => {},
            Err(e) => {
                return Err(e);
            },
        }
        match self.serial.write_all(data) {
            Ok(()) => {},
            Err(e) => {
                return Err(e);
            },
        }
        let r = self.flush_cmd();
        proof {
            assert(self.tx() =~= old(self).tx() + spec_mem_wr_bytes(addr, data@));
        }
        r
    }

    /// Read from the Mega Drive's memory: mirrors the write framing, then
    /// reads exactly `len` bytes. A zero length puts nothing on the wire.
    pub fn read_memory(&mut self, addr: u32, len: usize) -> (r: Result<Vec<u8>, DriverError>)
        requires
            len <= 0xFFFFFFFF,
        ensures
            final(self).timeout_ms() == old(self).timeout_ms(),
            final(self).attempts() == old(self).attempts(),
            len == 0 ==> r is Ok && final(self).tx() == old(self).tx()
                && final(self).rx() == old(self).rx(),
            r is Ok ==> r->Ok_0@.len() == len,
            r is Ok && len > 0 ==> final(self).tx() == old(self).tx() + spec_mem_preamble(
                CMD_MEM_RD,
                addr,
                len as u32,
            ) && len <= old(self).rx().len() && r->Ok_0@ == old(self).rx().take(len as int)
                && final(self).rx() == old(self).rx().skip(len as int),
            r is Err ==> (r->Err_0 is Timeout || r->Err_0 is IOError),
    {
        if len == 0 {
            return Ok(Vec::new());
        }
        match self.tx_cmd(CMD_MEM_RD) {
            Ok(()) => {},
            Err(e) => {
                return Err(e);
            },
        }
        match self.tx_u32(addr) {
            Ok(()) => {},
            Err(e) => {
                return Err(e);
            },
        }
        match self.tx_u32(len as u32) {
            Ok(()) => {},
            Err(e) => {
                return Err(e);
            },
        }
        match self.tx_u8(0) {
            Ok(()) => {},
            Err(e) => {
                return Err(e);
            },
        }
        match self.flush_cmd() {
            Ok(()) => {},
            Err(e) => {
                return Err(e);
            },
        }
        let r = self.serial.read_exact(len);
        proof {
            if r is Ok {
                assert(self.tx() =~= old(self).tx() + spec_mem_preamble(
                    CMD_MEM_RD,
                    addr,
                    len as u32,
                ));
            }
        }
        r
    }

    /// Write to the FIFO used by the Mega Everdrive for communication with
    /// its IO co-processor: a memory write at the fixed FIFO address.
    pub fn fifo_write(&mut self, data: &[u8]) -> (r: Result<(), DriverError>)
        requires
            data@.len() <= 0xFFFFFFFF,
        ensures
            final(self).rx() == old(self).rx(),
            final(self).timeout_ms() == old(self).timeout_ms(),
            final(self).attempts() == old(self).attempts(),
            data@.len() == 0 ==> r is Ok && final(self).tx() == old(self).tx(),
            r is Ok ==> final(self).tx() == old(self).tx() + spec_mem_wr_bytes(ADDR_FIFO, data@),
            r is Err ==> (r->Err_0 is Timeout || r->Err_0 is IOError),
    {
        self.write_memory(ADDR_FIFO, data)
    }

    /// Write a 16-bit integer to the FIFO, big-endian.
    pub fn fifo_write_u16(&mut self, v: u16) -> (r: Result<(), DriverError>)
        ensures
            final(self).rx() == old(self).rx(),
            final(self).timeout_ms() == old(self).timeout_ms(),
            final(self).attempts() == old(self).attempts(),
            r is Ok ==> final(self).tx() == old(self).tx() + spec_mem_wr_bytes(
                ADDR_FIFO,
                spec_be16(v),
            ),
            r is Err ==> (r->Err_0 is Timeout || r->Err_0 is IOError),
    {
        let buf = be16_bytes(v);
        self.fifo_write(buf.as_slice())
    }

    /// Write a 32-bit integer to the FIFO, big-endian.
    pub fn fifo_write_u32(&mut self, v: u32) -> (r: Result<(), DriverError>)
        ensures
            final(self).rx() == old(self).rx(),
            final(self).timeout_ms() == old(self).timeout_ms(),
            final(self).attempts() == old(self).attempts(),
            r is Ok ==> final(self).tx() == old(self).tx() + spec_mem_wr_bytes(
                ADDR_FIFO,
                spec_be32(v),
            ),
            r is Err ==> (r->Err_0 is Timeout || r->Err_0 is IOError),
    {
        let buf = be32_bytes(v);
        self.fifo_write(buf.as_slice())
    }

    /// Write a string to the FIFO: its byte length as one FIFO write, then
    /// its UTF-8 bytes as another.
    pub fn fifo_write_str(&mut self, s: &str) -> (r: Result<(), DriverError>)
        requires
            encode_utf8(s@).len() <= 0xFFFF,
        ensures
            final(self).rx() == old(self).rx(),
            final(self).timeout_ms() == old(self).timeout_ms(),
            final(self).attempts() == old(self).attempts(),
            r is Ok ==> final(self).tx() == old(self).tx() + spec_fifo_str_bytes(s@),
            r is Err ==> (r->Err_0 is Timeout || r->Err_0 is IOError),
    {
        let len = s.len();
        match self.fifo_write_u16(len as u16) {
            Ok(()) => {},
            Err(e) => {
                return Err(e);
            },
        }
        let r = self.fifo_write(s.as_bytes());
        proof {
            if r is Ok {
                assert(self.tx() =~= old(self).tx() + spec_fifo_str_bytes(s@));
            }
        }
        r
    }

    /// Obtain a usable, quiescent connection: ask the factory for one, set
    /// a short read timeout and discard whatever stale bytes a prior
    /// session left behind, then restore the steady-state timeout.
    fn open_serial(f: &mut F) -> (r: Result<F::Port, DriverError>)
        ensures
            final(f).attempts() == old(f).attempts() + 1,
            r is Ok ==> r->Ok_0.timeout_ms() == 1000 && r->Ok_0.tx() == Seq::<u8>::empty(),
            r is Err ==> (r->Err_0 is TransportUnavailable || r->Err_0 is IOError),
    {
        let mut port = match f.open() {
            Ok(p) => p,
            Err(e) => {
                return Err(e);
            },
        };
        match port.set_timeout_ms(100) {
            Ok(()) => {},
            Err(e) => {
                return Err(e);
            },
        }
        loop
            invariant
                port.tx() == Seq::<u8>::empty(),
            decreases port.rx().len(),
        {
            let ghost pre = port.rx();
            match port.read_some(1024) {
                Ok(v) => {
                    if v.len() == 0 {
                        break;
                    }
                    proof {
                        assert(v@.len() <= pre.len());
                        assert(port.rx().len() < pre.len());
                    }
                },
                Err(_) => {
                    break;
                },
            }
        }
        match port.set_timeout_ms(1000) {
            Ok(()) => {},
            Err(e) => {
                return Err(e);
            },
        }
        Ok(port)
    }

    /// Create a new Mega Everdrive Pro controller.
    ///
    /// Acquires a connection and does a status check early, so that a wrong
    /// or wedged device gets stuck now rather than mid-operation.
    pub fn new(factory: F) -> (r: Result<EverdriveSerial<F>, DriverError>)
        ensures
            r is Ok ==> r->Ok_0.wf() && r->Ok_0.attempts() == factory.attempts() + 1 && r->Ok_0.tx()
                == spec_frame(CMD_STATUS),
            r is Err ==> (r->Err_0 is TransportUnavailable || r->Err_0 is ProtocolViolation
                || r->Err_0 is Timeout || r->Err_0 is IOError),
    {
        let mut f = factory;
        let serial = match Self::open_serial(&mut f) {
            Ok(s) => s,
            Err(e) => {
                return Err(e);
            },
        };
        let mut s = EverdriveSerial { factory: f, serial };
        match s.get_status() {
            Ok(_) => {},
            Err(e) => {
                return Err(e);
            },
        }
        Ok(s)
    }

    /// Change the current operating mode.
    ///
    /// Reads the current mode first; if it already equals `target_mode`,
    /// nothing more goes on the wire and the call succeeds at once.
    /// Otherwise the transition command is issued — which drops the
    /// device's serial endpoint while it reboots — and the driver asks the
    /// factory for a fresh connection, up to 100 attempts, keeping the
    /// first one on which a status exchange succeeds. A failure to acquire
    /// is absorbed as "device not ready yet"; a failing status exchange on
    /// an acquired connection is a genuine health problem and is
    /// propagated.
    pub fn set_mode(&mut self, target_mode: Mode) -> (r: Result<(), DriverError>)
        ensures
            old(self).attempts() <= final(self).attempts() <= old(self).attempts() + 100,
            r is Ok ==> old(self).rx().len() >= 1,
            r is Ok && spec_mode_of_byte(old(self).rx()[0]) == target_mode ==> final(self).tx()
                == old(self).tx() + spec_frame(CMD_GET_MODE)
                && final(self).rx() == old(self).rx().skip(1)
                && final(self).attempts() == old(self).attempts()
                && final(self).timeout_ms() == old(self).timeout_ms(),
            r is Ok && spec_mode_of_byte(old(self).rx()[0]) != target_mode ==> final(self).tx()
                == spec_frame(CMD_STATUS) && final(self).wf()
                && old(self).attempts() + 1 <= final(self).attempts(),
            r is Err && r->Err_0 is ReconnectTimeout ==> final(self).attempts()
                == old(self).attempts() + 100,
            r is Err && r->Err_0 is ReconnectTimeout ==> old(self).rx().len() >= 1
                && spec_mode_of_byte(old(self).rx()[0]) != target_mode
                && final(self).tx() == old(self).tx() + spec_frame(CMD_GET_MODE)
                + spec_transition_bytes(target_mode)
                && final(self).rx() == old(self).rx().skip(1)
                && final(self).timeout_ms() == old(self).timeout_ms(),
            r is Err && r->Err_0 is ProtocolViolation ==> old(self).rx().len() >= 1
                && spec_mode_of_byte(old(self).rx()[0]) != target_mode
                && final(self).tx() == old(self).tx() + spec_frame(CMD_GET_MODE)
                + spec_transition_bytes(target_mode)
                && final(self).rx() == old(self).rx().skip(1)
                && final(self).timeout_ms() == old(self).timeout_ms(),
            r is Err ==> (r->Err_0 is ReconnectTimeout || r->Err_0 is ProtocolViolation
                || r->Err_0 is Timeout || r->Err_0 is IOError),
    {
        let current = match self.get_mode() {
            Ok(m) => m,
            Err(e) => {
                return Err(e);
            },
        };
        if current == target_mode {
            return Ok(());
        }
        match target_mode {
            Mode::Service => {
                match self.tx_cmd(CMD_IO_RST) {
                    Ok(()) => {},
                    Err(e) => {
                        return Err(e);
                    },
                }
                match self.tx_u8(0) {
                    Ok(()) => {},
                    Err(e) => {
                        return Err(e);
                    },
                }
            },
            Mode::App => {
                match self.tx_cmd(CMD_RUN_APP) {
                    Ok(()) => {},
                    Err(e) => {
                        return Err(e);
                    },
                }
            },
        }
        proof {
            assert(self.tx() =~= old(self).tx() + spec_frame(CMD_GET_MODE)
                + spec_transition_bytes(target_mode));
        }
        let mut attempt: usize = 0;
        while attempt < 100
            invariant
                0 <= attempt <= 100,
                self.attempts() == old(self).attempts() + attempt,
                old(self).rx().len() >= 1,
                spec_mode_of_byte(old(self).rx()[0]) != target_mode,
                self.tx() == old(self).tx() + spec_frame(CMD_GET_MODE) + spec_transition_bytes(
                    target_mode,
                ),
                self.rx() == old(self).rx().skip(1),
                self.timeout_ms() == old(self).timeout_ms(),
            decreases 100 - attempt,
        {
            match Self::open_serial(&mut self.factory) {
                Ok(mut port) => {
                    match status_exchange(&mut port) {
                        Ok(_) => {
                            self.serial = port;
                            return Ok(());
                        },
                        Err(e) => {
                            return Err(e);
                        },
                    }
                },
                Err(_) => {},
            }
            attempt = attempt + 1;
        }
        Err(DriverError::ReconnectTimeout)
    }

    /// Receive a file-metadata record: size, date, time, attribute byte,
    /// then the file name as a string.
    fn rx_file_metadata(&mut self) -> (r: Result<FileMetadata, DriverError>)
        ensures
            final(self).tx() == old(self).tx(),
            final(self).timeout_ms() == old(self).timeout_ms(),
            final(self).attempts() == old(self).attempts(),
            r is Ok ==> spec_metadata_at(old(self).rx(), r->Ok_0) && final(self).rx() == old(self).rx().skip(spec_metadata_len(old(self).rx())),
            r is Err ==> (r->Err_0 is MalformedResponse || r->Err_0 is Timeout
                || r->Err_0 is IOError),
    {
        let ghost s0 = old(self).rx();
        let size = match self.rx_u32() {
            Ok(v) => v,
            Err(e) => {
                return Err(e);
            },
        };
        let date = match self.rx_u16() {
            Ok(v) => v,
            Err(e) => {
                return Err(e);
            },
        };
        proof {
            assert(s0.skip(4).take(2) =~= s0.subrange(4, 6));
            assert(s0.skip(4).skip(2) =~= s0.skip(6));
        }
        let time = match self.rx_u16() {
            Ok(v) => v,
            Err(e) => {
                return Err(e);
            },
        };
        proof {
            assert(s0.skip(6).take(2) =~= s0.subrange(6, 8));
            assert(s0.skip(6).skip(2) =~= s0.skip(8));
        }
        let attrib = match self.rx_u8() {
            Ok(v) => v,
            Err(e) => {
                return Err(e);
            },
        };
        proof {
            assert(s0.skip(8).skip(1) =~= s0.skip(9));
        }
        let name = match self.rx_str() {
            Ok(v) => v,
            Err(e) => {
                return Err(e);
            },
        };
        proof {
            assert(s0.skip(9).subrange(0, 2) =~= s0.subrange(9, 11));
            assert(spec_str_len_at(s0.skip(9), 0) == spec_str_len_at(s0, 9));
            assert(s0.skip(9).subrange(2, 2 + spec_str_len_at(s0, 9)) =~= s0.subrange(
                11,
                11 + spec_str_len_at(s0, 9),
            ));
            assert(s0.skip(9).skip(2 + spec_str_len_at(s0, 9)) =~= s0.skip(
                11 + spec_str_len_at(s0, 9),
            ));
            assert(s0.take(4) =~= s0.subrange(0, 4));
        }
        Ok(FileMetadata { name, size, date, time, attrib })
    }

    /// Fetch the metadata for a file on the SD card. A non-zero result code
    /// from the device means the file could not be examined.
    pub fn get_file_metadata(&mut self, path: &str) -> (r: Result<FileMetadata, DriverError>)
        requires
            encode_utf8(path@).len() <= 0xFFFF,
        ensures
            final(self).timeout_ms() == old(self).timeout_ms(),
            final(self).attempts() == old(self).attempts(),
            r is Ok ==> (({
                let rx = old(self).rx();
                rx.len() >= 1 && rx[0] == 0 && spec_metadata_at(rx.skip(1), r->Ok_0) && final(self).tx() == old(self).tx() + spec_frame(CMD_F_FINFO) + spec_str_payload(path@)
                    && final(self).rx() == rx.skip(1 + spec_metadata_len(rx.skip(1)))
            })),
            r is Err && r->Err_0 is FileError ==> (({
                let rx = old(self).rx();
                rx.len() >= 1 && rx[0] != 0 && r->Err_0 == DriverError::FileError(rx[0]) && final(self).tx() == old(self).tx() + spec_frame(CMD_F_FINFO) + spec_str_payload(path@)
                    && final(self).rx() == rx.skip(1)
            })),
            r is Err ==> (r->Err_0 is FileError || r->Err_0 is MalformedResponse
                || r->Err_0 is Timeout || r->Err_0 is IOError),
    {
        match self.tx_cmd(CMD_F_FINFO) {
            Ok(()) => {},
            Err(e) => {
                return Err(e);
            },
        }
        match self.tx_str(path) {
            Ok(()) => {},
            Err(e) => {
                return Err(e);
            },
        }
        match self.flush_cmd() {
            Ok(()) => {},
            Err(e) => {
                return Err(e);
            },
        }
        let resp = match self.rx_u8() {
            Ok(v) => v,
            Err(e) => {
                return Err(e);
            },
        };
        if resp != 0 {
            return Err(DriverError::FileError(resp));
        }
        self.rx_file_metadata()
    }

    /// Set the current file handle, given a path on the SD card and a mode
    /// byte of FAT-style open flags.
    pub fn open_file(&mut self, path: &str, mode: u8) -> (r: Result<(), DriverError>)
        requires
            encode_utf8(path@).len() <= 0xFFFF,
        ensures
            final(self).timeout_ms() == old(self).timeout_ms(),
            final(self).attempts() == old(self).attempts(),
            r is Ok ==> (({
                let rx = old(self).rx();
                rx.len() >= 2 && rx[0] == STATUS_SENTINEL && rx[1] == 0 && final(self).tx() == old(self).tx() + spec_frame(CMD_F_FOPN) + seq![mode] + spec_str_payload(path@)
                    + spec_frame(CMD_STATUS) && final(self).rx() == rx.skip(2)
            })),
            r is Err && r->Err_0 is DeviceRejected ==> (({
                let rx = old(self).rx();
                rx.len() >= 2 && rx[0] == STATUS_SENTINEL && rx[1] != 0 && r->Err_0
                    == DriverError::DeviceRejected(rx[1]) && final(self).tx() == old(self).tx()
                    + spec_frame(CMD_F_FOPN) + seq![mode] + spec_str_payload(path@) + spec_frame(
                    CMD_STATUS,
                ) && final(self).rx() == rx.skip(2)
            })),
            r is Err ==> (r->Err_0 is DeviceRejected || r->Err_0 is ProtocolViolation
                || r->Err_0 is Timeout || r->Err_0 is IOError),
    {
        match self.tx_cmd(CMD_F_FOPN) {
            Ok(()) => {},
            Err(e) => {
                return Err(e);
            },
        }
        match self.tx_u8(mode) {
            Ok(()) => {},
            Err(e) => {
                return Err(e);
            },
        }
        match self.tx_str(path) {
            Ok(()) => {},
            Err(e) => {
                return Err(e);
            },
        }
        let r = self.check_status();
        proof {
            if r is Ok || (r is Err && (r->Err_0 is DeviceRejected)) {
                assert(self.tx() =~= old(self).tx() + spec_frame(CMD_F_FOPN) + seq![mode]
                    + spec_str_payload(path@) + spec_frame(CMD_STATUS));
            }
        }
        r
    }

    /// Load an image into the FPGA from flash storage. Fails with
    /// `DeviceRejected` if the device reports a non-zero status afterwards.
    pub fn load_fpga_from_flash(&mut self, addr: u32) -> (r: Result<(), DriverError>)
        ensures
            old(self).attempts() <= final(self).attempts() <= old(self).attempts() + 100,
            r is Ok ==> old(self).rx().len() >= 1,
            r is Ok && spec_mode_of_byte(old(self).rx()[0]) == Mode::App ==> (({
                let rx = old(self).rx();
                rx.len() >= 3 && rx[1] == STATUS_SENTINEL && rx[2] == 0 && final(self).tx() == old(self).tx() + spec_frame(CMD_GET_MODE) + spec_fpga_fla_tail(addr) && final(self).rx()
                    == rx.skip(3)
            })),
            r is Ok && spec_mode_of_byte(old(self).rx()[0]) != Mode::App ==> final(self).tx()
                == spec_frame(CMD_STATUS) + spec_fpga_fla_tail(addr) && final(self).wf(),
            r is Err && r->Err_0 is DeviceRejected && old(self).rx().len() >= 1
                && spec_mode_of_byte(old(self).rx()[0]) == Mode::App ==> (({
                let rx = old(self).rx();
                rx.len() >= 3 && rx[1] == STATUS_SENTINEL && rx[2] != 0 && r->Err_0
                    == DriverError::DeviceRejected(rx[2]) && final(self).tx() == old(self).tx()
                    + spec_frame(CMD_GET_MODE) + spec_fpga_fla_tail(addr) && final(self).rx()
                    == rx.skip(3)
            })),
            r is Err ==> (r->Err_0 is DeviceRejected || r->Err_0 is ProtocolViolation
                || r->Err_0 is ReconnectTimeout || r->Err_0 is Timeout || r->Err_0 is IOError),
    {
        match self.set_mode(Mode::App) {
            Ok(()) => {},
            Err(e) => {
                return Err(e);
            },
        }
        match self.reset_host(ResetMode::Soft) {
            Ok(()) => {},
            Err(e) => {
                return Err(e);
            },
        }
        match self.tx_cmd(CMD_FPG_FLA) {
            Ok(()) => {},
            Err(e) => {
                return Err(e);
            },
        }
        match self.tx_u32(addr) {
            Ok(()) => {},
            Err(e) => {
                return Err(e);
            },
        }
        match self.flush_cmd() {
            Ok(()) => {},
            Err(e) => {
                return Err(e);
            },
        }
        let r = self.check_status();
        proof {
            if r is Ok || (r is Err && (r->Err_0 is DeviceRejected)) {
                if spec_mode_of_byte(old(self).rx()[0]) == Mode::App {
                    assert(self.tx() =~= old(self).tx() + spec_frame(CMD_GET_MODE)
                        + spec_fpga_fla_tail(addr));
                    assert(self.rx() =~= old(self).rx().skip(3));
                } else {
                    assert(self.tx() =~= spec_frame(CMD_STATUS) + spec_fpga_fla_tail(addr));
                }
            }
        }
        r
    }

    /// Load an image into the FPGA from an in-memory buffer, drip-fed in
    /// acknowledgment-gated blocks. Fails with `ChunkRejected` if the
    /// device refuses a block, and with `DeviceRejected` if the final
    /// status check reports a non-zero code.
    pub fn load_fpga_from_slice(&mut self, data: &[u8]) -> (r: Result<(), DriverError>)
        requires
            data@.len() <= 0xFFFFFFFF,
        ensures
            old(self).attempts() <= final(self).attempts() <= old(self).attempts() + 100,
            r is Ok ==> old(self).rx().len() >= 1,
            r is Ok && spec_mode_of_byte(old(self).rx()[0]) == Mode::App ==> (({
                let rx = old(self).rx();
                let n = spec_n_chunks(data@.len() as int);
                rx.len() >= 3 + n && (forall|j: int| 1 <= j < 1 + n ==> rx[j] == 0) && rx[1 + n]
                    == STATUS_SENTINEL && rx[2 + n] == 0 && final(self).tx() == old(self).tx()
                    + spec_frame(CMD_GET_MODE) + spec_fpga_usb_tail(data@) && final(self).rx()
                    == rx.skip(3 + n)
            })),
            r is Ok && spec_mode_of_byte(old(self).rx()[0]) != Mode::App ==> final(self).tx()
                == spec_frame(CMD_STATUS) + spec_fpga_usb_tail(data@) && final(self).wf(),
            r is Err && r->Err_0 is ChunkRejected && old(self).rx().len() >= 1
                && spec_mode_of_byte(old(self).rx()[0]) == Mode::App ==> (exists|k: int|
                #![trigger data@.take(1024 * k)]
                0 <= k < spec_n_chunks(data@.len() as int) && 1 + k < old(self).rx().len()
                    && old(self).rx()[1 + k] != 0 && (forall|j: int|
                    1 <= j < 1 + k ==> old(self).rx()[j] == 0) && r->Err_0
                    == DriverError::ChunkRejected(old(self).rx()[1 + k]) && final(self).tx()
                    == old(self).tx() + spec_frame(CMD_GET_MODE) + spec_fpga_usb_head(
                    data@.len() as u32,
                ) + data@.take(1024 * k) && final(self).rx() == old(self).rx().skip(2 + k)),
            r is Err && r->Err_0 is DeviceRejected && old(self).rx().len() >= 1
                && spec_mode_of_byte(old(self).rx()[0]) == Mode::App ==> (({
                let rx = old(self).rx();
                let n = spec_n_chunks(data@.len() as int);
                rx.len() >= 3 + n && (forall|j: int| 1 <= j < 1 + n ==> rx[j] == 0) && rx[1 + n]
                    == STATUS_SENTINEL && rx[2 + n] != 0 && r->Err_0
                    == DriverError::DeviceRejected(rx[2 + n]) && final(self).tx() == old(self).tx()
                    + spec_frame(CMD_GET_MODE) + spec_fpga_usb_tail(data@) && final(self).rx()
                    == rx.skip(3 + n)
            })),
            r is Err ==> (r->Err_0 is ChunkRejected || r->Err_0 is DeviceRejected
                || r->Err_0 is ProtocolViolation || r->Err_0 is ReconnectTimeout
                || r->Err_0 is Timeout || r->Err_0 is IOError),
    {
        match self.set_mode(Mode::App) {
            Ok(()) => {},
            Err(e) => {
                return Err(e);
            },
        }
        match self.reset_host(ResetMode::Soft) {
            Ok(()) => {},
            Err(e) => {
                return Err(e);
            },
        }
        match self.tx_cmd(CMD_FPG_USB) {
            Ok(()) => {},
            Err(e) => {
                return Err(e);
            },
        }
        match self.tx_u32(data.len() as u32) {
            Ok(()) => {},
            Err(e) => {
                return Err(e);
            },
        }
        let ghost mid_tx = self.tx();
        let ghost mid_rx = self.rx();
        match self.tx_ack(data) {
            Ok(()) => {},
            Err(e) => {
                proof {
                    let n = spec_n_chunks(data@.len() as int);
                    if e is ChunkRejected && old(self).rx().len() >= 1 && spec_mode_of_byte(
                        old(self).rx()[0],
                    ) == Mode::App {
                        let rx = old(self).rx();
                        assert(mid_rx =~= rx.skip(1));
                        assert(mid_tx =~= old(self).tx() + spec_frame(CMD_GET_MODE)
                            + spec_fpga_usb_head(data@.len() as u32));
                        let k = choose|k: int|
                            0 <= k < n && k < mid_rx.len() && mid_rx[k] != 0 && (forall|j: int|
                                0 <= j < k ==> mid_rx[j] == 0) && e == DriverError::ChunkRejected(
                                mid_rx[k],
                            ) && self.tx() == mid_tx + data@.take(1024 * k) && self.rx()
                                == mid_rx.skip(k + 1);
                        assert(mid_rx[k] == rx[1 + k]);
                        assert(forall|j: int| 1 <= j < 1 + k ==> rx[j] == mid_rx[j - 1]);
                        assert(self.rx() =~= rx.skip(2 + k));
                        assert(0 <= k < n && 1 + k < rx.len() && rx[1 + k] != 0 && (forall|j: int|
                            1 <= j < 1 + k ==> rx[j] == 0) && e == DriverError::ChunkRejected(
                            rx[1 + k],
                        ) && self.tx() == old(self).tx() + spec_frame(CMD_GET_MODE)
                            + spec_fpga_usb_head(data@.len() as u32) + data@.take(1024 * k)
                            && self.rx() == rx.skip(2 + k));
                    }
                }
                return Err(e);
            },
        }
        let r = self.check_status();
        proof {
            if r is Ok || (r is Err && (r->Err_0 is DeviceRejected)) {
                let n = spec_n_chunks(data@.len() as int);
                if old(self).rx().len() >= 1 && spec_mode_of_byte(old(self).rx()[0])
                    == Mode::App {
                    assert(mid_rx =~= old(self).rx().skip(1));
                    assert(forall|j: int|
                        1 <= j < 1 + n ==> old(self).rx()[j] == mid_rx[j - 1] && mid_rx[j - 1]
                            == 0);
                    assert(mid_rx.skip(n) =~= old(self).rx().skip(1 + n));
                    assert(self.rx() =~= old(self).rx().skip(3 + n));
                    assert(self.tx() =~= old(self).tx() + spec_frame(CMD_GET_MODE)
                        + spec_fpga_usb_tail(data@));
                } else if r is Ok {
                    assert(self.tx() =~= spec_frame(CMD_STATUS) + spec_fpga_usb_tail(data@));
                }
            }
        }
        r
    }

    /// Load an image into the FPGA from the SD card: fetch the file's
    /// metadata to learn its size, then hand that size to the device.
    pub fn load_fpga_from_sd(&mut self, path: &str) -> (r: Result<(), DriverError>)
        requires
            encode_utf8(path@).len() <= 0xFFFF,
        ensures
            old(self).attempts() <= final(self).attempts() <= old(self).attempts() + 100,
            r is Ok ==> old(self).rx().len() >= 1,
            r is Ok && spec_mode_of_byte(old(self).rx()[0]) == Mode::App ==> (({
                let rx = old(self).rx();
                let meta = rx.skip(2);
                let consumed = 2 + spec_metadata_len(meta);
                rx.len() >= consumed + 2 && rx[1] == 0 && rx[consumed] == STATUS_SENTINEL
                    && rx[consumed + 1] == 0 && final(self).tx() == old(self).tx() + spec_frame(
                    CMD_GET_MODE,
                ) + spec_frame(CMD_HOST_RST) + seq![1u8] + spec_frame(CMD_F_FINFO)
                    + spec_str_payload(path@) + spec_frame(CMD_FPG_SDC) + spec_be32(
                    spec_u32_of_be(meta.subrange(0, 4)),
                ) + seq![0u8] + spec_frame(CMD_STATUS) && final(self).rx() == rx.skip(consumed + 2)
            })),
            r is Ok && spec_mode_of_byte(old(self).rx()[0]) != Mode::App ==> (exists|sz: u32|
                final(self).tx() == spec_frame(CMD_STATUS) + spec_frame(CMD_HOST_RST) + seq![1u8]
                    + spec_frame(CMD_F_FINFO) + spec_str_payload(path@) + spec_frame(CMD_FPG_SDC)
                    + spec_be32(sz) + seq![0u8] + spec_frame(CMD_STATUS)) && final(self).wf(),
            r is Err && r->Err_0 is FileError && old(self).rx().len() >= 1 && spec_mode_of_byte(
                old(self).rx()[0],
            ) == Mode::App ==> (({
                let rx = old(self).rx();
                rx.len() >= 2 && rx[1] != 0 && r->Err_0 == DriverError::FileError(rx[1]) && final(self).tx() == old(self).tx() + spec_frame(CMD_GET_MODE) + spec_frame(CMD_HOST_RST)
                    + seq![1u8] + spec_frame(CMD_F_FINFO) + spec_str_payload(path@) && final(self).rx() == rx.skip(2)
            })),
            r is Err && r->Err_0 is DeviceRejected && old(self).rx().len() >= 1
                && spec_mode_of_byte(old(self).rx()[0]) == Mode::App ==> (({
                let rx = old(self).rx();
                let meta = rx.skip(2);
                let consumed = 2 + spec_metadata_len(meta);
                rx.len() >= consumed + 2 && rx[1] == 0 && rx[consumed] == STATUS_SENTINEL
                    && rx[consumed + 1] != 0 && r->Err_0 == DriverError::DeviceRejected(
                    rx[consumed + 1],
                ) && final(self).tx() == old(self).tx() + spec_frame(CMD_GET_MODE) + spec_frame(
                    CMD_HOST_RST,
                ) + seq![1u8] + spec_frame(CMD_F_FINFO) + spec_str_payload(path@) + spec_frame(
                    CMD_FPG_SDC,
                ) + spec_be32(spec_u32_of_be(meta.subrange(0, 4))) + seq![0u8] + spec_frame(
                    CMD_STATUS,
                ) && final(self).rx() == rx.skip(consumed + 2)
            })),
            r is Err ==> (r->Err_0 is FileError || r->Err_0 is MalformedResponse
                || r->Err_0 is DeviceRejected || r->Err_0 is ProtocolViolation
                || r->Err_0 is ReconnectTimeout || r->Err_0 is Timeout || r->Err_0 is IOError),
    {
        match self.set_mode(Mode::App) {
            Ok(()) => {},
            Err(e) => {
                return Err(e);
            },
        }
        match self.reset_host(ResetMode::Soft) {
            Ok(()) => {},
            Err(e) => {
                return Err(e);
            },
        }
        let ghost mid_rx = self.rx();
        let info = match self.get_file_metadata(path) {
            Ok(m) => m,
            Err(e) => {
                proof {
                    if e is FileError && old(self).rx().len() >= 1 && spec_mode_of_byte(
                        old(self).rx()[0],
                    ) == Mode::App {
                        assert(mid_rx =~= old(self).rx().skip(1));
                        assert(mid_rx[0] == old(self).rx()[1]);
                        assert(self.rx() =~= old(self).rx().skip(2));
                        assert(self.tx() =~= old(self).tx() + spec_frame(CMD_GET_MODE)
                            + spec_frame(CMD_HOST_RST) + seq![1u8] + spec_frame(CMD_F_FINFO)
                            + spec_str_payload(path@));
                    }
                }
                return Err(e);
            },
        };
        match self.tx_cmd(CMD_FPG_SDC) {
            Ok(()) => {},
            Err(e) => {
                return Err(e);
            },
        }
        match self.tx_u32(info.size) {
            Ok(()) => {},
            Err(e) => {
                return Err(e);
            },
        }
        match self.tx_u8(0) {
            Ok(()) => {},
            Err(e) => {
                return Err(e);
            },
        }
        match self.flush_cmd() {
            Ok(()) => {},
            Err(e) => {
                return Err(e);
            },
        }
        let r = self.check_status();
        proof {
            if r is Ok || (r is Err && (r->Err_0 is DeviceRejected)) {
                if old(self).rx().len() >= 1 && spec_mode_of_byte(old(self).rx()[0])
                    == Mode::App {
                    let rx = old(self).rx();
                    let meta = rx.skip(2);
                    assert(mid_rx =~= rx.skip(1));
                    assert(mid_rx.skip(1) =~= meta);
                    assert(mid_rx.skip(1 + spec_metadata_len(mid_rx.skip(1))) =~= rx.skip(
                        2 + spec_metadata_len(meta),
                    ));
                    assert(meta.subrange(0, 4) =~= mid_rx.skip(1).subrange(0, 4));
                    assert(self.rx() =~= rx.skip(2 + spec_metadata_len(meta) + 2));
                    assert(self.tx() =~= old(self).tx() + spec_frame(CMD_GET_MODE) + spec_frame(
                        CMD_HOST_RST,
                    ) + seq![1u8] + spec_frame(CMD_F_FINFO) + spec_str_payload(path@) + spec_frame(
                        CMD_FPG_SDC,
                    ) + spec_be32(spec_u32_of_be(meta.subrange(0, 4))) + seq![0u8] + spec_frame(
                        CMD_STATUS,
                    ));
                } else if r is Ok {
                    assert(final(self).tx() == spec_frame(CMD_STATUS) + spec_frame(CMD_HOST_RST)
                        + seq![1u8] + spec_frame(CMD_F_FINFO) + spec_str_payload(path@)
                        + spec_frame(CMD_FPG_SDC) + spec_be32(info.size) + seq![0u8] + spec_frame(
                        CMD_STATUS,
                    )) by {
                        assert(self.tx() =~= spec_frame(CMD_STATUS) + spec_frame(CMD_HOST_RST)
                            + seq![1u8] + spec_frame(CMD_F_FINFO) + spec_str_payload(path@)
                            + spec_frame(CMD_FPG_SDC) + spec_be32(info.size) + seq![0u8]
                            + spec_frame(CMD_STATUS));
                    }
                }
            }
        }
        r
    }

    /// Load and boot a game ROM: ensure App mode, hold the target in soft
    /// reset while the image goes into the ROM window, release the reset,
    /// then drive the FIFO handshake that tests the link and registers the
    /// image's name and size with the device's menu layer.
    #[verifier::rlimit(50)]
    pub fn load_game(&mut self, name: &str, game: &[u8], skip_fpga: bool) -> (r: Result<
        (),
        DriverError,
    >)
        requires
            game@.len() <= 0xFFFFFFFF,
            encode_utf8(name@).len() <= 0xFFFB,
        ensures
            old(self).attempts() <= final(self).attempts() <= old(self).attempts() + 100,
            r is Ok ==> old(self).rx().len() >= 1,
            r is Ok && spec_mode_of_byte(old(self).rx()[0]) == Mode::App ==> (({
                let rx = old(self).rx();
                rx.len() >= 4 && rx[1] == ROM_READY_ACK && rx[2] == FIFO_TEST_ACK && final(self).tx() == old(self).tx() + spec_frame(CMD_GET_MODE) + spec_load_game_tail(name@, game@, skip_fpga)
                    && final(self).rx() == rx.skip(4)
            })),
            r is Ok && spec_mode_of_byte(old(self).rx()[0]) != Mode::App ==> final(self).tx()
                == spec_frame(CMD_STATUS) + spec_load_game_tail(name@, game@, skip_fpga) && final(self).wf(),
            r is Err && r->Err_0 is UnexpectedResponse && old(self).rx().len() >= 1
                && spec_mode_of_byte(old(self).rx()[0]) == Mode::App ==> (({
                let rx = old(self).rx();
                (rx.len() >= 2 && rx[1] != ROM_READY_ACK && r->Err_0 == DriverError::UnexpectedResponse(
                    rx[1],
                ) && final(self).tx() == old(self).tx() + spec_frame(CMD_GET_MODE)
                    + spec_load_game_prefix(game@) && final(self).rx() == rx.skip(2)) || (rx.len()
                    >= 3 && rx[1] == ROM_READY_ACK && rx[2] != FIFO_TEST_ACK && r->Err_0
                    == DriverError::UnexpectedResponse(rx[2]) && final(self).tx() == old(self).tx()
                    + spec_frame(CMD_GET_MODE) + spec_load_game_prefix(game@) + spec_mem_wr_bytes(
                    ADDR_FIFO,
                    encode_utf8("*t"@),
                ) && final(self).rx() == rx.skip(3))
            })),
            r is Err ==> (r->Err_0 is UnexpectedResponse || r->Err_0 is ReconnectTimeout
                || r->Err_0 is ProtocolViolation || r->Err_0 is Timeout || r->Err_0 is IOError),
    {
        match self.set_mode(Mode::App) {
            Ok(()) => {},
            Err(e) => {
                return Err(e);
            },
        }
        match self.reset_host(ResetMode::Soft) {
            Ok(()) => {},
            Err(e) => {
                return Err(e);
            },
        }
        match self.write_memory(ADDR_ROM, game) {
            Ok(()) => {},
            Err(e) => {
                return Err(e);
            },
        }
        match self.reset_host(ResetMode::Off) {
            Ok(()) => {},
            Err(e) => {
                return Err(e);
            },
        }
        let resp = match self.rx_u8() {
            Ok(b) => b,
            Err(e) => {
                return Err(e);
            },
        };
        if resp != ROM_READY_ACK {
            proof {
                if spec_mode_of_byte(old(self).rx()[0]) == Mode::App {
                    assert(self.tx() =~= old(self).tx() + spec_frame(CMD_GET_MODE)
                        + spec_load_game_prefix(game@));
                    assert(self.rx() =~= old(self).rx().skip(2));
                }
            }
            return Err(DriverError::UnexpectedResponse(resp));
        }
        proof {
            reveal_strlit("*t");
            reveal_strlit("*u");
            reveal_strlit("*g");
            assert(is_ascii_chars("*t"@));
            assert(is_ascii_chars("*u"@));
            assert(is_ascii_chars("*g"@));
            is_ascii_chars_encode_utf8("*t"@);
            is_ascii_chars_encode_utf8("*u"@);
            is_ascii_chars_encode_utf8("*g"@);
        }
        match self.fifo_write("*t".as_bytes()) {
            Ok(()) => {},
            Err(e) => {
                return Err(e);
            },
        }
        match self.flush_cmd() {
            Ok(()) => {},
            Err(e) => {
                return Err(e);
            },
        }
        let resp2 = match self.rx_u8() {
            Ok(b) => b,
            Err(e) => {
                return Err(e);
            },
        };
        if resp2 != FIFO_TEST_ACK {
            proof {
                if spec_mode_of_byte(old(self).rx()[0]) == Mode::App {
                    assert(self.tx() =~= old(self).tx() + spec_frame(CMD_GET_MODE)
                        + spec_load_game_prefix(game@) + spec_mem_wr_bytes(
                        ADDR_FIFO,
                        encode_utf8("*t"@),
                    ));
                    assert(self.rx() =~= old(self).rx().skip(3));
                }
            }
            return Err(DriverError::UnexpectedResponse(resp2));
        }
        if skip_fpga {
            match self.fifo_write("*u".as_bytes()) {
                Ok(()) => {},
                Err(e) => {
                    return Err(e);
                },
            }
            match self.flush_cmd() {
                Ok(()) => {},
                Err(e) => {
                    return Err(e);
                },
            }
        }
        match self.fifo_write("*g".as_bytes()) {
            Ok(()) => {},
            Err(e) => {
                return Err(e);
            },
        }
        match self.fifo_write_u32(game.len() as u32) {
            Ok(()) => {},
            Err(e) => {
                return Err(e);
            },
        }
        let mut full = String::from_str("USB:");
        full.append(name);
        proof {
            reveal_strlit("USB:");
            assert(is_ascii_chars("USB:"@));
            is_ascii_chars_encode_utf8("USB:"@);
            lemma_encode_utf8_concat("USB:"@, name@);
            assert(encode_utf8(full@).len() <= 0xFFFF);
        }
        match self.fifo_write_str(full.as_str()) {
            Ok(()) => {},
            Err(e) => {
                return Err(e);
            },
        }
        match self.flush_cmd() {
            Ok(()) => {},
            Err(e) => {
                return Err(e);
            },
        }
        // Clear the final acknowledgment byte.
        let r = match self.rx_u8() {
            Ok(_) => Ok(()),
            Err(e) => Err(e),
        };
        proof {
            if r is Ok {
                if spec_mode_of_byte(old(self).rx()[0]) == Mode::App {
                    assert(self.tx() =~= old(self).tx() + spec_frame(CMD_GET_MODE)
                        + spec_load_game_tail(name@, game@, skip_fpga));
                    assert(self.rx() =~= old(self).rx().skip(4));
                } else {
                    assert(self.tx() =~= spec_frame(CMD_STATUS) + spec_load_game_tail(
                        name@,
                        game@,
                        skip_fpga,
                    ));
                }
            }
        }
        r
    }

    /// Read some data from the FIFO: a memory read at the fixed FIFO
    /// address.
    pub fn fifo_read(&mut self, len: usize) -> (r: Result<Vec<u8>, DriverError>)
        requires
            len <= 0xFFFFFFFF,
        ensures
            final(self).timeout_ms() == old(self).timeout_ms(),
            final(self).attempts() == old(self).attempts(),
            len == 0 ==> r is Ok && final(self).tx() == old(self).tx()
                && final(self).rx() == old(self).rx(),
            r is Ok ==> r->Ok_0@.len() == len,
            r is Ok && len > 0 ==> final(self).tx() == old(self).tx() + spec_mem_preamble(
                CMD_MEM_RD,
                ADDR_FIFO,
                len as u32,
            ) && len <= old(self).rx().len() && r->Ok_0@ == old(self).rx().take(len as int)
                && final(self).rx() == old(self).rx().skip(len as int),
            r is Err ==> (r->Err_0 is Timeout || r->Err_0 is IOError),
    {
        self.read_memory(ADDR_FIFO, len)
    }
}

} // verus!
