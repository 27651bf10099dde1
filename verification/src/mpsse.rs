//! What an MPSSE command at the head of the received bytes does.
use vstd::prelude::*;
use crate::hardware::{
    PinOp, tdi_bytes_ops, tdi_transfer_ops, tdi_transfer_result, tdi_write_ops, tms_transfer_ops,
    tms_transfer_result, tms_write_ops, transfer_clock, write_clock,
};

verus! {

/// A 16-bit little-endian field.
pub open spec fn u16_le(lo: u8, hi: u8) -> nat {
    lo as nat + hi as nat * 256
}

/// The bit count of a bit-mode command: the low three bits of its length
/// byte, plus one.
pub open spec fn bit_count(len: u8) -> u8 {
    ((len & 7) + 1) as u8
}

/// The bit count of a bit-mode command from its length byte.
pub fn bit_count_of(len: u8) -> (n: u8)
    ensures
        n == bit_count(len),
        1 <= n <= 8,
{
    assert(len & 7 <= 7) by (bit_vector);
    (len & 7) + 1
}

/// Opcodes of three bytes that need no room for an answer.
pub open spec fn is_three_byte_write(c: u8) -> bool {
    c == 0x1a || c == 0x1b || c == 0x4a || c == 0x4b || c == 0x80 || c == 0x82 || c == 0x86
}

/// Opcodes of three bytes that answer one byte.
pub open spec fn is_bit_read(c: u8) -> bool {
    c == 0x3b || c == 0x3e || c == 0x6a || c == 0x6b || c == 0x6e || c == 0x6f
}

/// Opcodes that clock whole bytes in and out.
pub open spec fn is_byte_transfer(c: u8) -> bool {
    c == 0x39 || c == 0x3c
}

/// Opcodes of one byte.
pub open spec fn is_single_byte(c: u8) -> bool {
    c == 0x84 || c == 0x85 || c == 0x87
}

/// The number of data bytes of a byte transfer whose length bytes are
/// `data[1]` and `data[2]`.
pub open spec fn transfer_bytes(data: Seq<u8>) -> nat {
    u16_le(data[1], data[2]) + 1
}

/// The number of bytes that the command at the head of `data` takes when
/// the answer buffer has `room` free bytes; 0 when the command is not
/// complete yet, its answer does not fit, or the opcode is unknown.
pub open spec fn command_length(data: Seq<u8>, room: int) -> nat {
    if data.len() == 0 {
        0
    } else if is_three_byte_write(data[0]) {
        if data.len() < 3 {
            0
        } else {
            3
        }
    } else if is_byte_transfer(data[0]) {
        if data.len() < 4 {
            0
        } else if data.len() < 3 + transfer_bytes(data) || room < transfer_bytes(data) {
            0
        } else {
            3 + transfer_bytes(data)
        }
    } else if is_bit_read(data[0]) {
        if data.len() < 3 || room < 1 {
            0
        } else {
            3
        }
    } else if is_single_byte(data[0]) {
        1
    } else {
        0
    }
}

/// The number of answer bytes of the command at the head of `data`.
pub open spec fn response_length(data: Seq<u8>, room: int) -> nat {
    if command_length(data, room) == 0 {
        0
    } else if is_byte_transfer(data[0]) {
        transfer_bytes(data)
    } else if is_bit_read(data[0]) {
        1
    } else {
        0
    }
}

/// The TCK divisor after the command at the head of `data`: a Set TCK
/// Divisor command (0x86) sets it to its 16-bit field plus one.
pub open spec fn command_divisor(data: Seq<u8>, room: int, divisor: u32) -> u32 {
    if command_length(data, room) > 0 && data[0] == 0x86 {
        (u16_le(data[1], data[2]) + 1) as u32
    } else {
        divisor
    }
}

/// The data bytes of a byte transfer: they follow the opcode and its two
/// length bytes.
pub open spec fn transfer_payload(data: Seq<u8>) -> Seq<u8> {
    data.subrange(3, 3 + transfer_bytes(data) as int)
}

/// The operations that the command at the head of `data` hands to the
/// pins, in order: none when it cannot run.
pub open spec fn command_ops(data: Seq<u8>, room: int, divisor: u32) -> Seq<PinOp> {
    if command_length(data, room) == 0 {
        Seq::empty()
    } else if data[0] == 0x1b {
        tdi_write_ops(divisor, data[2], bit_count(data[1]))
    } else if data[0] == 0x4b {
        tms_write_ops(divisor, data[2], bit_count(data[1]))
    } else if data[0] == 0x39 {
        tdi_bytes_ops(divisor, transfer_payload(data))
    } else if data[0] == 0x3b {
        tdi_transfer_ops(divisor, data[2], bit_count(data[1]))
    } else if data[0] == 0x6b {
        tms_transfer_ops(divisor, data[2], bit_count(data[1]))
    } else if data[0] == 0x80 {
        seq![PinOp::SetGpio { direction: data[2], value: data[1] }]
    } else {
        Seq::empty()
    }
}

/// `resp` is an answer of the command at the head of `data`: for 0x39 the
/// TDO byte of each data byte (which start at `data[3]`), for 0x3b and
/// 0x6b the sampled bits, zeros for the sampling commands that are not
/// supported, and nothing for the others.
pub open spec fn command_response_ok<F: Fn(PinOp) -> u8>(
    data: Seq<u8>,
    room: int,
    divisor: u32,
    pins: F,
    resp: Seq<u8>,
) -> bool {
    if command_length(data, room) == 0 {
        resp.len() == 0
    } else if data[0] == 0x39 {
        &&& resp.len() == transfer_bytes(data)
        &&& forall|i: int|
            0 <= i < resp.len() ==> tdi_transfer_result(divisor, pins, data[3 + i], 8, #[trigger] resp[i])
    } else if data[0] == 0x3c {
        resp == Seq::new(transfer_bytes(data), |i: int| 0u8)
    } else if data[0] == 0x3b {
        &&& resp.len() == 1
        &&& tdi_transfer_result(divisor, pins, data[2], bit_count(data[1]), resp[0])
    } else if data[0] == 0x6b {
        &&& resp.len() == 1
        &&& tms_transfer_result(divisor, pins, data[2], bit_count(data[1]), resp[0])
    } else if is_bit_read(data[0]) {
        resp == seq![0u8]
    } else {
        resp.len() == 0
    }
}

/// The number of bytes that a run of commands takes from the head of
/// `data`: commands run one after another until the data is used up or
/// the next command cannot run.
pub open spec fn batch_consumed(data: Seq<u8>, room: int) -> nat
    decreases data.len(),
{
    let n = command_length(data, room);
    if data.len() == 0 || n == 0 {
        0
    } else {
        n + batch_consumed(data.skip(n as int), room - response_length(data, room))
    }
}

/// The number of answer bytes of that run of commands.
pub open spec fn batch_response_length(data: Seq<u8>, room: int) -> nat
    decreases data.len(),
{
    let n = command_length(data, room);
    if data.len() == 0 || n == 0 {
        0
    } else {
        response_length(data, room) + batch_response_length(
            data.skip(n as int),
            room - response_length(data, room),
        )
    }
}

/// The TCK divisor after that run of commands.
pub open spec fn batch_divisor(data: Seq<u8>, room: int, divisor: u32) -> u32
    decreases data.len(),
{
    let n = command_length(data, room);
    if data.len() == 0 || n == 0 {
        divisor
    } else {
        batch_divisor(
            data.skip(n as int),
            room - response_length(data, room),
            command_divisor(data, room, divisor),
        )
    }
}

/// The operations that run of commands hands to the pins, in order.
pub open spec fn batch_ops(data: Seq<u8>, room: int, divisor: u32) -> Seq<PinOp>
    decreases data.len(),
{
    let n = command_length(data, room);
    if data.len() == 0 || n == 0 {
        Seq::empty()
    } else {
        command_ops(data, room, divisor) + batch_ops(
            data.skip(n as int),
            room - response_length(data, room),
            command_divisor(data, room, divisor),
        )
    }
}

/// `resp` is an answer of that run of commands: the answers of its
/// commands one after another.
pub open spec fn batch_response_ok<F: Fn(PinOp) -> u8>(
    data: Seq<u8>,
    room: int,
    divisor: u32,
    pins: F,
    resp: Seq<u8>,
) -> bool
    decreases data.len(),
{
    let n = command_length(data, room);
    let rl = response_length(data, room);
    if data.len() == 0 || n == 0 {
        resp.len() == 0
    } else {
        &&& rl <= resp.len()
        &&& command_response_ok(data, room, divisor, pins, resp.take(rl as int))
        &&& batch_response_ok(
            data.skip(n as int),
            room - rl,
            command_divisor(data, room, divisor),
            pins,
            resp.skip(rl as int),
        )
    }
}

/// A command takes no more bytes than there are, and its answer fits in
/// the room it was given.
pub proof fn lemma_command_bounds(data: Seq<u8>, room: int)
    requires
        0 <= room,
    ensures
        command_length(data, room) <= data.len(),
        response_length(data, room) <= room,
        response_length(data, room) < command_length(data, room) || command_length(data, room) == 0,
{
}

/// A command that cannot run has no effect: it answers nothing, keeps the
/// divisor and writes no pin.
pub proof fn lemma_blocked_command_has_no_effect(data: Seq<u8>, room: int, divisor: u32)
    requires
        command_length(data, room) == 0,
    ensures
        response_length(data, room) == 0,
        command_divisor(data, room, divisor) == divisor,
        command_ops(data, room, divisor) == Seq::<PinOp>::empty(),
        batch_consumed(data, room) == 0,
        batch_response_length(data, room) == 0,
        batch_divisor(data, room, divisor) == divisor,
        batch_ops(data, room, divisor) == Seq::<PinOp>::empty(),
{
}

/// An unknown opcode never runs, whatever follows it and whatever room
/// there is: the MPSSE stops at it for good and touches no pin.
pub proof fn lemma_unknown_opcode_hangs(data: Seq<u8>, room: int, divisor: u32)
    requires
        data.len() > 0,
        !is_three_byte_write(data[0]),
        !is_byte_transfer(data[0]),
        !is_bit_read(data[0]),
        !is_single_byte(data[0]),
    ensures
        command_length(data, room) == 0,
        batch_consumed(data, room) == 0,
        batch_ops(data, room, divisor) == Seq::<PinOp>::empty(),
{
}

/// Bytes that arrive after a command that can run do not change what it
/// does.
pub proof fn lemma_command_decided_by_its_bytes<F: Fn(PinOp) -> u8>(
    data: Seq<u8>,
    more: Seq<u8>,
    room: int,
    divisor: u32,
    pins: F,
    resp: Seq<u8>,
)
    requires
        command_length(data, room) > 0,
    ensures
        command_length(data + more, room) == command_length(data, room),
        response_length(data + more, room) == response_length(data, room),
        command_divisor(data + more, room, divisor) == command_divisor(data, room, divisor),
        command_ops(data + more, room, divisor) == command_ops(data, room, divisor),
        command_response_ok(data + more, room, divisor, pins, resp) == command_response_ok(
            data,
            room,
            divisor,
            pins,
            resp,
        ),
{
    let all = data + more;
    assert(all[0] == data[0]);
    if data.len() >= 3 {
        assert(all[1] == data[1]);
        assert(all[2] == data[2]);
    }
    if is_byte_transfer(data[0]) {
        assert(transfer_payload(all) =~= transfer_payload(data));
        if resp.len() == transfer_bytes(data) {
            assert forall|i: int| 0 <= i < resp.len() implies #[trigger] all[3 + i] == data[3 + i] by {}
        }
    }
}

/// Set TCK Divisor never stops the clock: it sets a divisor from 1 to
/// 65536, so every later shift is clocked.
pub proof fn lemma_divisor_command_keeps_clock(data: Seq<u8>, room: int, divisor: u32)
    requires
        command_length(data, room) > 0,
        data[0] == 0x86,
    ensures
        1 <= command_divisor(data, room, divisor) <= 65536,
        transfer_clock(command_divisor(data, room, divisor)) is Some,
        write_clock(command_divisor(data, room, divisor)) is Some,
{
}

/// A run of commands takes no more bytes than there are and answers no
/// more bytes than the room.
pub proof fn lemma_batch_bounds(data: Seq<u8>, room: int)
    requires
        0 <= room,
    ensures
        batch_consumed(data, room) <= data.len(),
        batch_response_length(data, room) <= room,
    decreases data.len(),
{
    let n = command_length(data, room);
    if data.len() > 0 && n > 0 {
        lemma_command_bounds(data, room);
        lemma_batch_bounds(data.skip(n as int), room - response_length(data, room));
    }
}

/// The bit count of a bit-mode command is its length byte modulo 8, plus
/// one: 1 to 8 bits.
pub proof fn lemma_bit_count(len: u8)
    ensures
        bit_count(len) == len % 8 + 1,
        1 <= bit_count(len) <= 8,
{
    assert((len & 7) == len % 8) by (bit_vector);
}

/// How many bytes each command takes, with `room` free answer bytes:
/// three-byte commands take 3 once complete; one-byte commands take 1; the
/// bit reads take 3 once complete and given a free answer byte; a byte
/// transfer with length field L (bytes 1 and 2, little-endian) takes 3 + L + 1
/// bytes once all its data is there and L + 1 answer bytes are free, and
/// answers that many bytes; anything else takes nothing.
pub proof fn lemma_command_lengths(data: Seq<u8>, room: int)
    requires
        data.len() > 0,
    ensures
        (data[0] == 0x1a || data[0] == 0x1b || data[0] == 0x4a || data[0] == 0x4b || data[0] == 0x80
            || data[0] == 0x82 || data[0] == 0x86) ==> command_length(data, room) == (if data.len()
            >= 3 {
            3nat
        } else {
            0nat
        }),
        (data[0] == 0x84 || data[0] == 0x85 || data[0] == 0x87) ==> command_length(data, room) == 1,
        (data[0] == 0x3b || data[0] == 0x3e || data[0] == 0x6a || data[0] == 0x6b || data[0] == 0x6e
            || data[0] == 0x6f) ==> command_length(data, room) == (if data.len() >= 3 && room >= 1 {
            3nat
        } else {
            0nat
        }) && response_length(data, room) == (if data.len() >= 3 && room >= 1 {
            1nat
        } else {
            0nat
        }),
        (data[0] == 0x39 || data[0] == 0x3c) && data.len() >= 3 ==> {
            let n = data[1] + data[2] * 256 + 1;
            &&& command_length(data, room) == (if data.len() >= 3 + n && room >= n {
                3 + n
            } else {
                0
            })
            &&& response_length(data, room) == (if data.len() >= 3 + n && room >= n {
                n
            } else {
                0
            })
        },
        !(data[0] == 0x1a || data[0] == 0x1b || data[0] == 0x4a || data[0] == 0x4b || data[0] == 0x80
            || data[0] == 0x82 || data[0] == 0x86 || data[0] == 0x84 || data[0] == 0x85 || data[0]
            == 0x87 || data[0] == 0x3b || data[0] == 0x3e || data[0] == 0x6a || data[0] == 0x6b
            || data[0] == 0x6e || data[0] == 0x6f || data[0] == 0x39 || data[0] == 0x3c) ==> command_length(
            data,
            room,
        ) == 0,
        !(data[0] == 0x39 || data[0] == 0x3c || data[0] == 0x3b || data[0] == 0x3e || data[0] == 0x6a
            || data[0] == 0x6b || data[0] == 0x6e || data[0] == 0x6f) ==> response_length(data, room)
            == 0,
{
}

/// What each runnable command hands the pins: 0x1B a TDI write and 0x4B a
/// TMS write of byte 2 with the bit count of byte 1; 0x39 one TDI byte
/// transfer of the data bytes that follow the two length bytes; 0x3B a TDI
/// and 0x6B a TMS transfer of byte 2; 0x80 the pin setting with direction
/// byte 2 and value byte 1; every other command nothing. Only 0x86 changes
/// the divisor, to its 16-bit field plus one.
pub proof fn lemma_command_effects(data: Seq<u8>, room: int, divisor: u32)
    requires
        command_length(data, room) > 0,
    ensures
        data[0] == 0x1b ==> command_ops(data, room, divisor) == tdi_write_ops(
            divisor,
            data[2],
            (data[1] % 8 + 1) as u8,
        ),
        data[0] == 0x4b ==> command_ops(data, room, divisor) == tms_write_ops(
            divisor,
            data[2],
            (data[1] % 8 + 1) as u8,
        ),
        data[0] == 0x39 ==> command_ops(data, room, divisor) == tdi_bytes_ops(
            divisor,
            data.subrange(3, 3 + data[1] + data[2] * 256 + 1),
        ),
        data[0] == 0x3b ==> command_ops(data, room, divisor) == tdi_transfer_ops(
            divisor,
            data[2],
            (data[1] % 8 + 1) as u8,
        ),
        data[0] == 0x6b ==> command_ops(data, room, divisor) == tms_transfer_ops(
            divisor,
            data[2],
            (data[1] % 8 + 1) as u8,
        ),
        data[0] == 0x80 ==> command_ops(data, room, divisor) == seq![
            PinOp::SetGpio { direction: data[2], value: data[1] },
        ],
        !(data[0] == 0x1b || data[0] == 0x4b || data[0] == 0x39 || data[0] == 0x3b || data[0] == 0x6b
            || data[0] == 0x80) ==> command_ops(data, room, divisor).len() == 0,
        data[0] == 0x86 ==> command_divisor(data, room, divisor) == data[1] + data[2] * 256 + 1,
        data[0] != 0x86 ==> command_divisor(data, room, divisor) == divisor,
{
    lemma_bit_count(data[1]);
}

/// What each runnable command answers: 0x39 one TDO byte per data byte
/// (byte i answering the transfer of data byte 3 + i), 0x3C zeros, 0x3B and
/// 0x6B the sampled bits, the other bit reads a zero byte, every other
/// command nothing.
pub proof fn lemma_command_answers<F: Fn(PinOp) -> u8>(
    data: Seq<u8>,
    room: int,
    divisor: u32,
    pins: F,
    resp: Seq<u8>,
)
    requires
        command_length(data, room) > 0,
    ensures
        data[0] == 0x39 ==> (command_response_ok(data, room, divisor, pins, resp) <==> (resp.len()
            == data[1] + data[2] * 256 + 1 && forall|i: int|
            0 <= i < resp.len() ==> tdi_transfer_result(divisor, pins, data[3 + i], 8, #[trigger] resp[i]))),
        data[0] == 0x3c ==> (command_response_ok(data, room, divisor, pins, resp) <==> (resp.len()
            == data[1] + data[2] * 256 + 1 && forall|i: int| 0 <= i < resp.len() ==> #[trigger] resp[i] == 0)),
        data[0] == 0x3b ==> (command_response_ok(data, room, divisor, pins, resp) <==> (resp.len() == 1
            && tdi_transfer_result(divisor, pins, data[2], (data[1] % 8 + 1) as u8, resp[0]))),
        data[0] == 0x6b ==> (command_response_ok(data, room, divisor, pins, resp) <==> (resp.len() == 1
            && tms_transfer_result(divisor, pins, data[2], (data[1] % 8 + 1) as u8, resp[0]))),
        (data[0] == 0x3e || data[0] == 0x6a || data[0] == 0x6e || data[0] == 0x6f) ==> (
        command_response_ok(data, room, divisor, pins, resp) <==> (resp.len() == 1 && resp[0] == 0)),
        !(data[0] == 0x39 || data[0] == 0x3c || data[0] == 0x3b || data[0] == 0x6b || data[0] == 0x3e
            || data[0] == 0x6a || data[0] == 0x6e || data[0] == 0x6f) ==> (command_response_ok(
            data,
            room,
            divisor,
            pins,
            resp,
        ) <==> resp.len() == 0),
{
    lemma_bit_count(data[1]);
    if data[0] == 0x3c && resp.len() == transfer_bytes(data) {
        if forall|i: int| 0 <= i < resp.len() ==> #[trigger] resp[i] == 0 {
            assert(resp =~= Seq::new(transfer_bytes(data), |i: int| 0u8));
        }
    }
    if is_bit_read(data[0]) && resp.len() == 1 && resp[0] == 0 {
        assert(resp =~= seq![0u8]);
    }
}

/// After a run of commands the next command cannot run: the run goes on
/// until the data is used up or a command is incomplete, unknown or
/// lacks answer room.
pub proof fn lemma_batch_stops_only_when_blocked(data: Seq<u8>, room: int)
    requires
        0 <= room,
    ensures
        ({
            let rest = data.skip(batch_consumed(data, room) as int);
            rest.len() == 0 || command_length(rest, room - batch_response_length(data, room)) == 0
        }),
    decreases data.len(),
{
    let n = command_length(data, room);
    if data.len() == 0 || n == 0 {
        assert(data.skip(0) =~= data);
    } else {
        lemma_command_bounds(data, room);
        let rl = response_length(data, room);
        lemma_batch_stops_only_when_blocked(data.skip(n as int), room - rl);
        let c = batch_consumed(data.skip(n as int), room - rl);
        lemma_batch_bounds(data.skip(n as int), room - rl);
        assert(data.skip(n as int).skip(c as int) =~= data.skip((n + c) as int));
    }
}

/// A run of commands starts with its first command: when that command can
/// run, the run takes at least its bytes, its operations come first among
/// the run's operations, its answer first among the run's answers, and the
/// rest of the run continues from the divisor it leaves.
pub proof fn lemma_batch_starts_with_first_command<F: Fn(PinOp) -> u8>(
    data: Seq<u8>,
    room: int,
    divisor: u32,
    pins: F,
    resp: Seq<u8>,
)
    requires
        command_length(data, room) > 0,
        0 <= room,
    ensures
        batch_consumed(data, room) >= command_length(data, room),
        batch_response_length(data, room) >= response_length(data, room),
        batch_ops(data, room, divisor).take(command_ops(data, room, divisor).len() as int)
            == command_ops(data, room, divisor),
        batch_divisor(data, room, divisor) == batch_divisor(
            data.skip(command_length(data, room) as int),
            room - response_length(data, room),
            command_divisor(data, room, divisor),
        ),
        batch_response_ok(data, room, divisor, pins, resp) ==> command_response_ok(
            data,
            room,
            divisor,
            pins,
            resp.take(response_length(data, room) as int),
        ),
{
    let first = command_ops(data, room, divisor);
    let n = command_length(data, room);
    let rest = batch_ops(
        data.skip(n as int),
        room - response_length(data, room),
        command_divisor(data, room, divisor),
    );
    assert((first + rest).take(first.len() as int) =~= first);
}

} // verus!
