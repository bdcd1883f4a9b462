//! The wire protocol: command frames, address framing and the chunking of
//! writes.

use vstd::prelude::*;

verus! {

/// The size in bytes of one write chunk. A write is split at multiples of
/// this size, whatever the burst length and the frequency are.
pub const CHUNK: usize = 256;

/// The number of addresses that three address bytes can tell apart.
pub const ADDRESS_SPACE: u32 = 0x100_0000;

/// The number of don't-care bytes that follow the opcode of `ReadId`, during
/// which the device sends its answer.
pub const ID_PADDING: usize = 13;

/// A command of the single-wire protocol.
#[derive(Debug, Clone, Copy, PartialEq, Eq, Structural)]
pub enum Command {
    /// Read from an address, at no more than 33 MHz.
    Read(u32),
    /// Write at an address, at no more than 33 MHz.
    Write(u32),
    /// Arm the reset.
    ResetEnable,
    /// Reset the device.
    Reset,
    /// Toggle the 32-byte burst mode.
    SetBurstLength,
    /// Read the manufacturer ID, the known-good flag and the EID.
    ReadId,
}

/// The three bytes that carry an address on the wire: bits 23 to 16, bits
/// 15 to 8, then bits 7 to 0. Bits 24 and above are not sent.
pub open spec fn address_bytes(address: u32) -> Seq<u8> {
    seq![
        ((address / 0x1_0000) % 0x100) as u8,
        ((address / 0x100) % 0x100) as u8,
        (address % 0x100) as u8,
    ]
}

impl Command {
    /// The first byte of the frame.
    pub open spec fn opcode(self) -> u8 {
        match self {
            Command::Read(_) => 0x03,
            Command::Write(_) => 0x02,
            Command::ResetEnable => 0x66,
            Command::Reset => 0x99,
            Command::SetBurstLength => 0xC0,
            Command::ReadId => 0x9F,
        }
    }

    /// The bytes of the frame, in the order in which they are sent.
    pub open spec fn bytes(self) -> Seq<u8> {
        match self {
            Command::Read(address) | Command::Write(address) => seq![self.opcode()]
                + address_bytes(address),
            Command::ReadId => seq![self.opcode()] + Seq::new(ID_PADDING as nat, |i: int| 0u8),
            _ => seq![self.opcode()],
        }
    }

    /// Builds the frame to exchange with the device.
    pub fn encode(&self) -> (frame: Vec<u8>)
        ensures
            frame@ == self.bytes(),
    {
        match self {
            Command::Read(address) => frame_with_address(0x03, *address),
            Command::Write(address) => frame_with_address(0x02, *address),
            Command::ResetEnable => vec![0x66],
            Command::Reset => vec![0x99],
            Command::SetBurstLength => vec![0xC0],
            Command::ReadId => {
                let mut frame: Vec<u8> = vec![0x9F];
                let mut sent: usize = 0;
                while sent < ID_PADDING
                    invariant
                        sent <= ID_PADDING,
                        frame@ == seq![0x9Fu8] + Seq::new(sent as nat, |i: int| 0u8),
                    decreases ID_PADDING - sent,
                {
                    frame.push(0);
                    sent += 1;
                }
                frame
            },
        }
    }
}

/// An opcode followed by the three address bytes.
fn frame_with_address(opcode: u8, address: u32) -> (frame: Vec<u8>)
    ensures
        frame@ == seq![opcode] + address_bytes(address),
{
    let high: u32 = (address >> 16) & 0xff;
    let middle: u32 = (address >> 8) & 0xff;
    let low: u32 = address & 0xff;
    assert(high == (address / 0x1_0000) % 0x100 && high < 0x100) by (bit_vector)
        requires
            high == (address >> 16) & 0xff,
    ;
    assert(middle == (address / 0x100) % 0x100 && middle < 0x100) by (bit_vector)
        requires
            middle == (address >> 8) & 0xff,
    ;
    assert(low == address % 0x100 && low < 0x100) by (bit_vector)
        requires
            low == address & 0xff,
    ;
    vec![opcode, high as u8, middle as u8, low as u8]
}

/// The number of chunks that a write of `len` bytes is split into: `len`
/// divided by the chunk size, rounded up.
pub open spec fn chunk_count(len: nat) -> nat {
    (len + CHUNK - 1) as nat / (CHUNK as nat)
}

/// The offset in the caller's buffer at which chunk `i` starts.
pub open spec fn chunk_start(i: nat) -> nat {
    CHUNK as nat * i
}

/// The offset in the caller's buffer at which chunk `i` ends: a full chunk
/// after its start, or the end of the buffer where that comes first.
pub open spec fn chunk_end(len: nat, i: nat) -> nat {
    if chunk_start(i) + CHUNK <= len {
        chunk_start(i) + CHUNK as nat
    } else {
        len
    }
}

/// The address that the command of chunk `i` carries: the chunk's absolute
/// address, `address + 256 * i`, reduced to the 24 bits that are sent.
pub open spec fn chunk_address(address: u32, i: nat) -> u32 {
    ((address + CHUNK * i) % (ADDRESS_SPACE as int)) as u32
}

/// Computes `chunk_count`.
pub fn count_chunks(len: usize) -> (count: usize)
    ensures
        count == chunk_count(len as nat),
{
    if len % CHUNK == 0 {
        len / CHUNK
    } else {
        len / CHUNK + 1
    }
}

/// Computes the part of the buffer that chunk `i` covers.
pub fn chunk_range(len: usize, i: usize) -> (range: (usize, usize))
    requires
        i < chunk_count(len as nat),
    ensures
        range.0 == chunk_start(i as nat),
        range.1 == chunk_end(len as nat, i as nat),
        range.0 < range.1 <= len,
{
    let start: usize = i * CHUNK;
    let end: usize = if len - start > CHUNK {
        start + CHUNK
    } else {
        len
    };
    (start, end)
}

/// Computes `chunk_address`.
pub fn address_of_chunk(address: u32, i: usize) -> (target: u32)
    ensures
        target == chunk_address(address, i as nat),
        target < ADDRESS_SPACE,
{
    let base: u32 = address % ADDRESS_SPACE;
    let turns: u32 = (i % 0x1_0000) as u32;
    let offset: u32 = turns * 256;
    (base + offset) % ADDRESS_SPACE
}

/// The three low bytes of a number are those of its remainder by 2^24.
proof fn lemma_low_bytes(target: int)
    requires
        0 <= target,
    ensures
        (target % 0x100_0000) / 0x1_0000 % 0x100 == target / 0x1_0000 % 0x100,
        (target % 0x100_0000) / 0x100 % 0x100 == target / 0x100 % 0x100,
        (target % 0x100_0000) % 0x100 == target % 0x100,
{
    let turns = target / 0x100_0000;
    let sent = target % 0x100_0000;
    assert(target == 0x100_0000 * turns + sent);
    let high = sent / 0x1_0000;
    assert(sent == 0x1_0000 * high + sent % 0x1_0000);
    assert(target == 0x1_0000 * (0x100 * turns + high) + sent % 0x1_0000);
    assert(target / 0x1_0000 == 0x100 * turns + high);
    let upper = sent / 0x100;
    assert(sent == 0x100 * upper + sent % 0x100);
    assert(target == 0x100 * (0x1_0000 * turns + upper) + sent % 0x100);
    assert(target / 0x100 == 0x1_0000 * turns + upper);
    assert(target % 0x100 == sent % 0x100);
    assert((0x1_0000 * turns + upper) % 0x100 == upper % 0x100) by {
        assert(0x1_0000 * turns + upper == 0x100 * (0x100 * turns) + upper);
    }
}

/// The address bytes of chunk `i` are those of the chunk's absolute
/// address: reducing the address to 24 bits changes none of the three bytes.
pub proof fn lemma_address_bytes_of_chunk(address: u32, i: nat)
    ensures
        ({
            let target = address + CHUNK * i;
            address_bytes(chunk_address(address, i)) == seq![
                (target / 0x1_0000 % 0x100) as u8,
                (target / 0x100 % 0x100) as u8,
                (target % 0x100) as u8,
            ]
        }),
{
    let target: int = address + CHUNK * i;
    lemma_low_bytes(target);
    let sent = chunk_address(address, i);
    assert(sent == target % 0x100_0000);
    assert(address_bytes(sent) =~= seq![
        (target / 0x1_0000 % 0x100) as u8,
        (target / 0x100 % 0x100) as u8,
        (target % 0x100) as u8,
    ]);
}

} // verus!
