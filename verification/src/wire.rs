use vstd::prelude::*;
use vstd::utf8::{decode_utf8, encode_utf8, valid_utf8};

use crate::types::{DriverError, FileMetadata, Mode};

verus! {

/// First byte of every command frame (ASCII '+'); the second byte is its
/// bitwise complement.
pub const PACKET_CMD: u8 = 0x2B;

pub const CMD_STATUS: u8 = 0x10;
pub const CMD_GET_MODE: u8 = 0x11;
pub const CMD_IO_RST: u8 = 0x12;
pub const CMD_MEM_RD: u8 = 0x19;
pub const CMD_MEM_WR: u8 = 0x1A;
pub const CMD_FPG_USB: u8 = 0x1E;
pub const CMD_FPG_SDC: u8 = 0x1F;
pub const CMD_FPG_FLA: u8 = 0x20;
pub const CMD_HOST_RST: u8 = 0x29;
pub const CMD_F_FOPN: u8 = 0xC9;
pub const CMD_F_FINFO: u8 = 0xD0;
pub const CMD_RUN_APP: u8 = 0xF1;

/// Base of the ROM address window.
pub const ADDR_ROM: u32 = 0;
/// The FIFO window: a fixed address used as a byte-stream channel to the
/// adapter's IO co-processor, layered on the memory read/write commands.
pub const ADDR_FIFO: u32 = 0x1810000;

/// Block size of the acknowledgment-gated transfer used for FPGA images.
pub const ACK_BLOCK_SIZE: usize = 1024;

/// Required high byte of every STATUS response word.
pub const STATUS_SENTINEL: u8 = 0xA5;
/// ASCII 'r': the ready acknowledgment the device sends once a freshly
/// loaded ROM is released from reset.
pub const ROM_READY_ACK: u8 = 0x72;
/// ASCII 'k': the acknowledgment of the FIFO link test.
pub const FIFO_TEST_ACK: u8 = 0x6B;
/// The GET_MODE response byte that denotes service mode; every other byte
/// denotes app mode.
pub const MODE_SERVICE: u8 = 0xA1;

/// The four-byte command frame for an opcode:
/// `[marker, !marker, opcode, !opcode]`.
pub open spec fn spec_frame(op: u8) -> Seq<u8> {
    seq![PACKET_CMD, !PACKET_CMD, op, !op]
}

/// A 16-bit value in big-endian byte order.
pub open spec fn spec_be16(v: u16) -> Seq<u8> {
    seq![(v / 256) as u8, (v % 256) as u8]
}

/// A 32-bit value in big-endian byte order.
pub open spec fn spec_be32(v: u32) -> Seq<u8> {
    seq![
        (v / 0x1000000) as u8,
        ((v / 0x10000) % 256) as u8,
        ((v / 256) % 256) as u8,
        (v % 256) as u8,
    ]
}

/// The 16-bit value two big-endian bytes stand for.
pub open spec fn spec_u16_of_be(b: Seq<u8>) -> u16
    recommends
        b.len() == 2,
{
    ((b[0] as int) * 256 + (b[1] as int)) as u16
}

/// The 32-bit value four big-endian bytes stand for.
pub open spec fn spec_u32_of_be(b: Seq<u8>) -> u32
    recommends
        b.len() == 4,
{
    ((b[0] as int) * 0x1000000 + (b[1] as int) * 0x10000 + (b[2] as int) * 256
        + (b[3] as int)) as u32
}

/// Encoding a 16-bit value and decoding it again is the identity, in both
/// directions.
pub proof fn lemma_be16_round_trip(v: u16)
    ensures
        spec_u16_of_be(spec_be16(v)) == v,
{
}

/// Encoding a 32-bit value and decoding it again is the identity.
pub proof fn lemma_be32_round_trip(v: u32)
    ensures
        spec_u32_of_be(spec_be32(v)) == v,
{
}

/// The two big-endian bytes of a 16-bit value are recovered by division:
/// the high byte is the quotient, the low byte the remainder.
pub proof fn lemma_u16_of_be_parts(b0: u8, b1: u8)
    ensures
        spec_u16_of_be(seq![b0, b1]) / 256 == b0 as u16,
        spec_u16_of_be(seq![b0, b1]) % 256 == b1 as u16,
{
}

/// Build the four-byte command frame for an opcode.
pub fn command_frame(op: u8) -> (r: Vec<u8>)
    ensures
        r@ == spec_frame(op),
{
    let mut r: Vec<u8> = Vec::new();
    r.push(PACKET_CMD);
    r.push(!PACKET_CMD);
    r.push(op);
    r.push(!op);
    proof {
        assert(r@ =~= spec_frame(op));
    }
    r
}

/// Encode a 16-bit value as two big-endian bytes.
pub fn be16_bytes(v: u16) -> (r: Vec<u8>)
    ensures
        r@ == spec_be16(v),
{
    let mut r: Vec<u8> = Vec::new();
    r.push((v / 256) as u8);
    r.push((v % 256) as u8);
    proof {
        assert(r@ =~= spec_be16(v));
    }
    r
}

/// Encode a 32-bit value as four big-endian bytes.
pub fn be32_bytes(v: u32) -> (r: Vec<u8>)
    ensures
        r@ == spec_be32(v),
{
    let mut r: Vec<u8> = Vec::new();
    r.push((v / 0x1000000) as u8);
    r.push(((v / 0x10000) % 256) as u8);
    r.push(((v / 256) % 256) as u8);
    r.push((v % 256) as u8);
    proof {
        assert(r@ =~= spec_be32(v));
    }
    r
}

/// Combine two big-endian bytes into a 16-bit value.
pub fn u16_of_be(b0: u8, b1: u8) -> (r: u16)
    ensures
        r == spec_u16_of_be(seq![b0, b1]),
{
    (b0 as u16) * 256 + (b1 as u16)
}

/// Combine four big-endian bytes into a 32-bit value.
pub fn u32_of_be(b0: u8, b1: u8, b2: u8, b3: u8) -> (r: u32)
    ensures
        r == spec_u32_of_be(seq![b0, b1, b2, b3]),
{
    (b0 as u32) * 0x1000000 + (b1 as u32) * 0x10000 + (b2 as u32) * 256 + (b3 as u32)
}

/// The wire form of a string: a 16-bit big-endian byte-length prefix, then
/// the UTF-8 bytes, with no terminator. Meaningful when the byte length
/// fits the prefix.
pub open spec fn spec_str_payload(s: Seq<char>) -> Seq<u8> {
    spec_be16(encode_utf8(s).len() as u16) + encode_utf8(s)
}

/// The byte length a string payload at offset `off` of a receive stream
/// declares in its prefix.
pub open spec fn spec_str_len_at(rx: Seq<u8>, off: int) -> int {
    spec_u16_of_be(rx.subrange(off, off + 2)) as int
}

/// The bytes of the string payload at offset `off` of a receive stream.
pub open spec fn spec_str_bytes_at(rx: Seq<u8>, off: int) -> Seq<u8> {
    rx.subrange(off + 2, off + 2 + spec_str_len_at(rx, off))
}

/// How many blocks an acknowledgment-gated transfer splits `len` payload
/// bytes into: all of `ACK_BLOCK_SIZE` bytes but the last, which may be
/// shorter.
pub open spec fn spec_n_chunks(len: int) -> int {
    (len + 1023) / 1024
}

/// Everything a memory-transfer command places on the wire ahead of its
/// payload: the frame, a 32-bit address, a 32-bit length, and one reserved
/// zero byte.
pub open spec fn spec_mem_preamble(op: u8, addr: u32, len: u32) -> Seq<u8> {
    spec_frame(op) + spec_be32(addr) + spec_be32(len) + seq![0u8]
}

/// The full wire form of a memory write: nothing at all when the payload
/// is empty, else the preamble followed by the raw payload.
pub open spec fn spec_mem_wr_bytes(addr: u32, data: Seq<u8>) -> Seq<u8> {
    if data.len() == 0 {
        Seq::empty()
    } else {
        spec_mem_preamble(CMD_MEM_WR, addr, data.len() as u32) + data
    }
}

/// The wire form of a string sent through the FIFO window: its byte length
/// as one memory write, then its bytes as another.
pub open spec fn spec_fifo_str_bytes(s: Seq<char>) -> Seq<u8> {
    spec_mem_wr_bytes(ADDR_FIFO, spec_be16(encode_utf8(s).len() as u16)) + spec_mem_wr_bytes(
        ADDR_FIFO,
        encode_utf8(s),
    )
}

/// Law: for every opcode, the command frame is, byte for byte,
/// `[0x2B, 0xD4, opcode, !opcode]`.
pub proof fn lemma_command_frame_bytes(op: u8)
    ensures
        spec_frame(op) =~= seq![0x2Bu8, 0xD4u8, op, !op],
{
    assert(!0x2Bu8 == 0xD4u8) by (bit_vector);
}

/// Law: a string payload parses back to exactly the string it encodes.
/// Framing a string with `spec_str_payload` and reading it back — length
/// prefix, that many bytes, UTF-8 decode — is the identity, whatever bytes
/// follow it on the receive stream.
pub proof fn lemma_str_payload_round_trip(s: Seq<char>, rest: Seq<u8>)
    requires
        encode_utf8(s).len() <= 0xFFFF,
    ensures
        valid_utf8(encode_utf8(s)),
        spec_str_len_at(spec_str_payload(s) + rest, 0) == encode_utf8(s).len(),
        spec_str_bytes_at(spec_str_payload(s) + rest, 0) == encode_utf8(s),
        decode_utf8(spec_str_bytes_at(spec_str_payload(s) + rest, 0)) == s,
{
    vstd::utf8::encode_utf8_valid_utf8(s);
    vstd::utf8::encode_utf8_decode_utf8(s);
    let rx = spec_str_payload(s) + rest;
    let n = encode_utf8(s).len() as int;
    lemma_be16_round_trip(encode_utf8(s).len() as u16);
    assert(rx.subrange(0, 2) =~= spec_be16(encode_utf8(s).len() as u16));
    assert(rx.subrange(2, 2 + n) =~= encode_utf8(s));
}

/// UTF-8 encoding distributes over concatenation of character sequences.
pub proof fn lemma_encode_utf8_concat(a: Seq<char>, b: Seq<char>)
    ensures
        encode_utf8(a + b) == encode_utf8(a) + encode_utf8(b),
    decreases a.len(),
{
    if a.len() == 0 {
        assert(a + b =~= b);
        assert(encode_utf8(a) + encode_utf8(b) =~= encode_utf8(b));
    } else {
        lemma_encode_utf8_concat(a.drop_first(), b);
        assert((a + b).drop_first() =~= a.drop_first() + b);
        assert(encode_utf8(a + b) =~= encode_utf8(a) + encode_utf8(b));
    }
}

/// How a file-metadata record lies at the front of a receive stream:
/// 32-bit size, 16-bit date, 16-bit time, one attribute byte, then the
/// name as a string payload.
pub open spec fn spec_metadata_at(rx: Seq<u8>, m: FileMetadata) -> bool {
    rx.len() >= 11 + spec_str_len_at(rx, 9) && m.size == spec_u32_of_be(rx.subrange(0, 4))
        && m.date == spec_u16_of_be(rx.subrange(4, 6)) && m.time == spec_u16_of_be(
        rx.subrange(6, 8),
    ) && m.attrib == rx[8] && valid_utf8(spec_str_bytes_at(rx, 9)) && m.name@ == decode_utf8(
        spec_str_bytes_at(rx, 9),
    )
}

/// How many receive bytes a file-metadata record at the front of the
/// stream occupies.
pub open spec fn spec_metadata_len(rx: Seq<u8>) -> int {
    11 + spec_str_len_at(rx, 9)
}

/// Everything `load_game` sends after App mode is ensured and up to the
/// ROM handshake: soft-reset the target, write the image into the ROM
/// window, release the reset. No FIFO traffic is part of this.
pub open spec fn spec_load_game_prefix(game: Seq<u8>) -> Seq<u8> {
    spec_frame(CMD_HOST_RST) + seq![1u8] + spec_mem_wr_bytes(ADDR_ROM, game) + spec_frame(
        CMD_HOST_RST,
    ) + seq![0u8]
}

/// Everything `load_game` sends after App mode is ensured: the reset/ROM
/// prefix, then the FIFO command sequence that tests the link, optionally
/// bypasses FPGA reconfiguration, and registers the image's identity.
pub open spec fn spec_load_game_tail(name: Seq<char>, game: Seq<u8>, skip_fpga: bool) -> Seq<u8> {
    spec_load_game_prefix(game) + spec_mem_wr_bytes(ADDR_FIFO, encode_utf8("*t"@)) + (if skip_fpga {
        spec_mem_wr_bytes(ADDR_FIFO, encode_utf8("*u"@))
    } else {
        Seq::<u8>::empty()
    }) + spec_mem_wr_bytes(ADDR_FIFO, encode_utf8("*g"@)) + spec_mem_wr_bytes(
        ADDR_FIFO,
        spec_be32(game.len() as u32),
    ) + spec_fifo_str_bytes("USB:"@ + name)
}

/// The bytes of the mode-transition command: entering service mode is an
/// IO reset with a zero argument; entering app mode is the run-application
/// command.
pub open spec fn spec_transition_bytes(target: Mode) -> Seq<u8> {
    match target {
        Mode::Service => spec_frame(CMD_IO_RST) + seq![0u8],
        Mode::App => spec_frame(CMD_RUN_APP),
    }
}

/// Everything `load_fpga_from_slice` sends after App mode is ensured and
/// ahead of the gated payload: soft reset, the FPGA-from-buffer command,
/// the image length.
pub open spec fn spec_fpga_usb_head(len: u32) -> Seq<u8> {
    spec_frame(CMD_HOST_RST) + seq![1u8] + spec_frame(CMD_FPG_USB) + spec_be32(len)
}

/// Everything `load_fpga_from_slice` sends after App mode is ensured:
/// soft reset, the FPGA-from-buffer command with the image length, the
/// image itself (chunked, but contiguous on the wire), and a status check.
pub open spec fn spec_fpga_usb_tail(data: Seq<u8>) -> Seq<u8> {
    spec_fpga_usb_head(data.len() as u32) + data + spec_frame(CMD_STATUS)
}

/// Everything `load_fpga_from_flash` sends after App mode is ensured:
/// soft reset, the FPGA-from-flash command with the flash address, and a
/// status check.
pub open spec fn spec_fpga_fla_tail(addr: u32) -> Seq<u8> {
    spec_frame(CMD_HOST_RST) + seq![1u8] + spec_frame(CMD_FPG_FLA) + spec_be32(addr) + spec_frame(
        CMD_STATUS,
    )
}

/// What `get_status` makes of the 16-bit STATUS response word: the high
/// byte must equal the sentinel, and the low byte is the status code.
pub open spec fn spec_status_result(msg: u16) -> Result<u8, DriverError> {
    if msg / 256 == STATUS_SENTINEL as u16 {
        Ok((msg % 256) as u8)
    } else {
        Err(DriverError::ProtocolViolation)
    }
}

/// Decode the STATUS response word.
pub fn parse_status(msg: u16) -> (r: Result<u8, DriverError>)
    ensures
        r == spec_status_result(msg),
{
    if msg / 256 == STATUS_SENTINEL as u16 {
        Ok((msg % 256) as u8)
    } else {
        Err(DriverError::ProtocolViolation)
    }
}

/// What `get_mode` makes of the one-byte GET_MODE response.
pub open spec fn spec_mode_of_byte(b: u8) -> Mode {
    if b == MODE_SERVICE {
        Mode::Service
    } else {
        Mode::App
    }
}

/// Decode the GET_MODE response byte.
pub fn mode_of_byte(b: u8) -> (m: Mode)
    ensures
        m == spec_mode_of_byte(b),
{
    if b == MODE_SERVICE {
        Mode::Service
    } else {
        Mode::App
    }
}

} // verus!
