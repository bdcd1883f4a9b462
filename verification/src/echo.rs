//! A device that keeps what is written to it, and what the driver's
//! exchanges do to it: a buffer that is written and then read from the same
//! address comes back as it was.
//!
//! The device is given by what it does with the bytes on the wire. It takes
//! its address from the three bytes after the opcode, stores or sends one
//! byte after the other from there on, and starts again at address 0 after
//! the last address that three bytes can hold.

use crate::state::Task;
use crate::wire::{address_bytes, chunk_count, ADDRESS_SPACE, CHUNK};
use vstd::prelude::*;

verus! {

/// The address that the device reads from a frame: the three bytes after the
/// opcode, the most significant first.
pub open spec fn framed_address(frame: Seq<u8>) -> int
    recommends
        frame.len() >= 4,
{
    frame[1] * 0x1_0000 + frame[2] * 0x100 + frame[3]
}

/// The memory after the device has stored `payload` from address `start`
/// on. A memory gives the byte at each address.
pub open spec fn filled(memory: spec_fn(int) -> u8, start: int, payload: Seq<u8>) -> spec_fn(
    int,
) -> u8
    decreases payload.len(),
{
    if payload.len() == 0 {
        memory
    } else {
        let before = filled(memory, start, payload.drop_last());
        let cell = (start + payload.len() - 1) % (ADDRESS_SPACE as int);
        |at: int|
            if at == cell {
                payload.last()
            } else {
                before(at)
            }
    }
}

/// The memory after an exchange in which the device has received `frame`
/// and then `payload`. A write stores the payload; nothing else changes the
/// memory.
pub open spec fn stored(memory: spec_fn(int) -> u8, frame: Seq<u8>, payload: Seq<u8>) -> spec_fn(
    int,
) -> u8 {
    if frame.len() == 4 && frame[0] == 0x02 {
        filled(memory, framed_address(frame), payload)
    } else {
        memory
    }
}

/// The `len` bytes that the device sends after it has received the frame of
/// a read.
pub open spec fn fetched(memory: spec_fn(int) -> u8, frame: Seq<u8>, len: nat) -> Seq<u8> {
    Seq::new(len, |j: int| memory((framed_address(frame) + j) % (ADDRESS_SPACE as int)))
}

/// The memory after the first `done` exchanges of a write of `data` at
/// `address`, when nothing fails.
pub open spec fn written(memory: spec_fn(int) -> u8, address: u32, data: Seq<u8>, done: nat)
    -> spec_fn(int) -> u8
    decreases done,
{
    if done == 0 {
        memory
    } else {
        let i = (done - 1) as nat;
        let task = Task::Write { address, len: data.len() as usize };
        let (start, end) = task.payload(i)->0;
        stored(
            written(memory, address, data, i),
            task.command(i).bytes(),
            data.subrange(start as int, end as int),
        )
    }
}

/// Whether a write of `data` stores nothing but one byte at any address:
/// bytes that lie a whole address space apart, and so go to the same
/// address, are equal. Every buffer that is no longer than the address
/// space is of this kind.
pub open spec fn unambiguous(data: Seq<u8>) -> bool {
    forall|i: int, j: int|
        0 <= i < j < data.len() && (j - i) % (ADDRESS_SPACE as int) == 0 ==> data[i] == data[j]
}

/// Whether the memory holds the first `upto` bytes of `data` from `address`
/// on.
spec fn holds(memory: spec_fn(int) -> u8, address: u32, data: Seq<u8>, upto: int) -> bool {
    forall|t: int|
        0 <= t < upto ==> memory(#[trigger] cell_of(address, t)) == data[t]
}

/// The address at which byte `t` of a buffer written at `address` lies.
spec fn cell_of(address: u32, t: int) -> int {
    (address + t) % (ADDRESS_SPACE as int)
}

/// The device reads from a frame the address that the driver put there,
/// reduced to 24 bits.
proof fn lemma_framed_address(opcode: u8, address: u32)
    ensures
        framed_address(seq![opcode] + address_bytes(address)) == address % ADDRESS_SPACE,
{
    let frame = seq![opcode] + address_bytes(address);
    let a = address as int;
    assert(frame[1] == ((address / 0x1_0000) % 0x100) as u8);
    assert(frame[2] == ((address / 0x100) % 0x100) as u8);
    assert(frame[3] == (address % 0x100) as u8);
    let sent = a % 0x100_0000;
    let turns = a / 0x100_0000;
    assert(a == 0x100_0000 * turns + sent);
    let high = sent / 0x1_0000;
    let rest = sent % 0x1_0000;
    assert(sent == 0x1_0000 * high + rest);
    assert(a == 0x1_0000 * (0x100 * turns + high) + rest);
    assert(a / 0x1_0000 == 0x100 * turns + high);
    assert((a / 0x1_0000) % 0x100 == high);
    let middle = rest / 0x100;
    let low = rest % 0x100;
    assert(rest == 0x100 * middle + low);
    assert(a == 0x100 * (0x1_0000 * turns + 0x100 * high + middle) + low);
    assert(a / 0x100 == 0x100 * (0x100 * turns + high) + middle);
    assert((a / 0x100) % 0x100 == middle);
    assert(a % 0x100 == low);
}

/// Storing the next part of a buffer keeps what the memory holds of the
/// buffer and adds the part.
proof fn lemma_filled_holds(
    memory: spec_fn(int) -> u8,
    address: u32,
    data: Seq<u8>,
    from: int,
    start: int,
    payload: Seq<u8>,
)
    requires
        unambiguous(data),
        0 <= from,
        from + payload.len() <= data.len(),
        payload == data.subrange(from, from + payload.len()),
        0 <= start,
        start % (ADDRESS_SPACE as int) == cell_of(address, from),
        holds(memory, address, data, from),
    ensures
        holds(filled(memory, start, payload), address, data, from + payload.len()),
    decreases payload.len(),
{
    if payload.len() > 0 {
        let shorter = payload.drop_last();
        let last = from + payload.len() - 1;
        assert(shorter =~= data.subrange(from, from + shorter.len()));
        lemma_filled_holds(memory, address, data, from, start, shorter);
        let before = filled(memory, start, shorter);
        let after = filled(memory, start, payload);
        let cell = (start + payload.len() - 1) % (ADDRESS_SPACE as int);
        assert(cell == cell_of(address, last)) by {
            lemma_same_cell(start, address + from, payload.len() - 1);
        }
        assert(payload.last() == data[last]);
        assert forall|t: int| 0 <= t < from + payload.len() implies after(
            #[trigger] cell_of(address, t),
        ) == data[t] by {
            if t < last && cell_of(address, t) == cell {
                lemma_apart(address as int + t, address as int + last);
                assert(data[t] == data[last]);
            }
        }
    }
}

/// Two numbers with the same remainder keep it when the same is added to
/// both.
proof fn lemma_same_cell(a: int, b: int, c: int)
    requires
        a % (ADDRESS_SPACE as int) == b % (ADDRESS_SPACE as int),
    ensures
        (a + c) % (ADDRESS_SPACE as int) == (b + c) % (ADDRESS_SPACE as int),
{
    let m = ADDRESS_SPACE as int;
    assert(a == m * (a / m) + a % m);
    assert(b == m * (b / m) + b % m);
    assert(a + c == b + c + m * (a / m - b / m));
    vstd::arithmetic::div_mod::lemma_mod_multiples_vanish(a / m - b / m, b + c, m);
}

/// Two numbers with the same remainder lie a multiple of the address space
/// apart.
proof fn lemma_apart(a: int, b: int)
    requires
        a % (ADDRESS_SPACE as int) == b % (ADDRESS_SPACE as int),
    ensures
        (b - a) % (ADDRESS_SPACE as int) == 0,
{
    let m = ADDRESS_SPACE as int;
    assert(a == m * (a / m) + a % m);
    assert(b == m * (b / m) + b % m);
    assert(b - a == m * (b / m - a / m) + 0);
    vstd::arithmetic::div_mod::lemma_mod_multiples_vanish(b / m - a / m, 0, m);
}

/// After `done` exchanges of a write the memory holds the buffer up to the
/// end of the last of them.
proof fn lemma_written_holds(memory: spec_fn(int) -> u8, address: u32, data: Seq<u8>, done: nat)
    requires
        data.len() <= usize::MAX,
        unambiguous(data),
        done <= chunk_count(data.len()),
    ensures
        holds(
            written(memory, address, data, done),
            address,
            data,
            if done == chunk_count(data.len()) {
                data.len() as int
            } else {
                CHUNK * done
            },
        ),
    decreases done,
{
    if done > 0 {
        let i = (done - 1) as nat;
        let task = Task::Write { address, len: data.len() as usize };
        let (start, end) = task.payload(i)->0;
        let before = written(memory, address, data, i);
        let frame = task.command(i).bytes();
        let payload = data.subrange(start as int, end as int);
        lemma_written_holds(memory, address, data, i);
        lemma_framed_address(0x02, task.command(i)->Write_0);
        assert(frame.len() == 4 && frame[0] == 0x02);
        assert(written(memory, address, data, done) == filled(
            before,
            framed_address(frame),
            payload,
        ));
        lemma_filled_holds(before, address, data, start as int, framed_address(frame), payload);
    }
}

/// A buffer that is written and then read from the same address comes back
/// as it was, where the device keeps what it is sent: after all the
/// exchanges of a write of `data` at `address`, the device answers the
/// exchange of a read of as many bytes from `address` with `data`.
///
/// The buffer must be unambiguous. Every buffer of at most 2^24 bytes is.
pub proof fn lemma_write_then_read(memory: spec_fn(int) -> u8, address: u32, data: Seq<u8>)
    requires
        data.len() <= usize::MAX,
        unambiguous(data),
    ensures
        ({
            let len = data.len() as usize;
            let write = Task::Write { address, len };
            let read = Task::Read { address, len };
            fetched(
                written(memory, address, data, write.exchanges()),
                read.command(0).bytes(),
                data.len(),
            ) == data
        }),
{
    let len = data.len() as usize;
    let write = Task::Write { address, len };
    let read = Task::Read { address, len };
    let after = written(memory, address, data, write.exchanges());
    lemma_written_holds(memory, address, data, write.exchanges());
    lemma_framed_address(0x03, address);
    let from = framed_address(read.command(0).bytes());
    assert forall|j: int| 0 <= j < data.len() implies after(
        (from + j) % (ADDRESS_SPACE as int),
    ) == data[j] by {
        lemma_same_cell(from, address as int, j);
        assert((from + j) % (ADDRESS_SPACE as int) == cell_of(address, j));
    }
    assert(fetched(after, read.command(0).bytes(), data.len()) =~= data);
}

/// A buffer that is no longer than the address space is unambiguous.
pub proof fn lemma_short_is_unambiguous(data: Seq<u8>)
    requires
        data.len() <= ADDRESS_SPACE,
    ensures
        unambiguous(data),
{
}

} // verus!
