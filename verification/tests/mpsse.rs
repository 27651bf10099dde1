use f042_ftdi::buffer::Buffer;
use f042_ftdi::ftdi::FtdiPort;
use f042_ftdi::hardware::{Hardware, PinDriver, PinOp, TransferClock, WriteClock};
use std::cell::RefCell;

fn inverted(op: PinOp) -> u8 {
    match op {
        PinOp::TransferTdiBits { byte, .. } | PinOp::TransferTmsBits { byte, .. } => !byte,
        _ => 0x55,
    }
}

/// Runs one command and returns how many bytes it took and the pin
/// operations it made.
fn run(data: &[u8], tx: &mut Buffer, hw: &mut Hardware) -> (usize, Vec<PinOp>) {
    let ops = RefCell::new(Vec::new());
    let mut pins = PinDriver::new(|op: PinOp| {
        ops.borrow_mut().push(op);
        inverted(op)
    });
    let n = FtdiPort::process_mpsse_command(hw, data, tx, &mut pins);
    drop(pins);
    (n, ops.into_inner())
}

#[test]
fn empty_data_takes_nothing() {
    let mut hw = Hardware::new();
    let mut tx = Buffer::new(16);
    assert_eq!(run(&[], &mut tx, &mut hw), (0, vec![]));
    assert_eq!(tx.available_read(), 0);
}

#[test]
fn incomplete_commands_wait() {
    let mut hw = Hardware::new();
    let mut tx = Buffer::new(16);
    for data in [&[0x1b, 0x07][..], &[0x80], &[0x86, 0x01], &[0x39, 0x00, 0x00], &[0x39, 0x02, 0x00, 1, 2], &[0x6b, 1]] {
        assert_eq!(run(data, &mut tx, &mut hw), (0, vec![]));
    }
    assert_eq!(tx.available_read(), 0);
}

#[test]
fn unknown_opcode_hangs() {
    let mut hw = Hardware::new();
    let mut tx = Buffer::new(16);
    assert_eq!(run(&[0xaa, 0, 0, 0], &mut tx, &mut hw), (0, vec![]));
    assert_eq!(run(&[0x00], &mut tx, &mut hw), (0, vec![]));
}

#[test]
fn write_tdi_bits_command() {
    let mut hw = Hardware::new();
    let mut tx = Buffer::new(16);
    assert_eq!(
        run(&[0x1b, 0x0a, 0x5a, 0xff], &mut tx, &mut hw),
        (3, vec![PinOp::WriteTdiBits { clock: WriteClock::Mhz6, byte: 0x5a, nbits: 3 }])
    );
    assert_eq!(run(&[0x1a, 0x00, 0x00], &mut tx, &mut hw), (3, vec![]));
    assert_eq!(tx.available_read(), 0);
}

#[test]
fn byte_transfer_answers_each_byte() {
    let mut hw = Hardware::new();
    let mut tx = Buffer::new(16);
    tx.write_all(&[0xee]);
    // length field 1 means two data bytes, after the two length bytes
    let (n, ops) = run(&[0x39, 0x01, 0x00, 0xaa, 0x77], &mut tx, &mut hw);
    assert_eq!(n, 5);
    assert_eq!(
        ops,
        vec![
            PinOp::TransferTdiBits { clock: TransferClock::Mhz4, byte: 0xaa, nbits: 8 },
            PinOp::TransferTdiBits { clock: TransferClock::Mhz4, byte: 0x77, nbits: 8 },
        ]
    );
    assert_eq!(tx.unread(), &[0xee, 0x55, 0x88]);
}

#[test]
fn single_byte_transfer_clocks_its_data_byte() {
    let mut hw = Hardware::new();
    let mut tx = Buffer::new(16);
    let (n, ops) = run(&[0x39, 0x00, 0x00, 0xaa], &mut tx, &mut hw);
    assert_eq!(n, 4);
    assert_eq!(ops, vec![PinOp::TransferTdiBits { clock: TransferClock::Mhz4, byte: 0xaa, nbits: 8 }]);
    assert_eq!(tx.unread(), &[0x55]);
}

#[test]
fn byte_transfer_without_room_waits() {
    let mut hw = Hardware::new();
    let mut tx = Buffer::new(2);
    tx.write_all(&[1]);
    assert_eq!(run(&[0x39, 0x01, 0x00, 0xaa, 0x77], &mut tx, &mut hw), (0, vec![]));
    assert_eq!(tx.unread(), &[1]);
}

#[test]
fn unsupported_byte_transfer_answers_zeros() {
    let mut hw = Hardware::new();
    let mut tx = Buffer::new(16);
    assert_eq!(run(&[0x3c, 0x02, 0x00, 1, 2, 3], &mut tx, &mut hw), (6, vec![]));
    assert_eq!(tx.unread(), &[0, 0, 0]);
}

#[test]
fn bit_transfers_answer_one_byte() {
    let mut hw = Hardware::new();
    let mut tx = Buffer::new(16);
    assert_eq!(
        run(&[0x3b, 0x07, 0x0f], &mut tx, &mut hw),
        (3, vec![PinOp::TransferTdiBits { clock: TransferClock::Mhz4, byte: 0x0f, nbits: 8 }])
    );
    assert_eq!(run(&[0x3e, 0x07, 0x0f], &mut tx, &mut hw), (3, vec![]));
    assert_eq!(
        run(&[0x6b, 0x02, 0x01], &mut tx, &mut hw),
        (3, vec![PinOp::TransferTmsBits { clock: TransferClock::Mhz4, byte: 0x01, nbits: 3 }])
    );
    assert_eq!(run(&[0x6b, 0x07, 0x01], &mut tx, &mut hw), (3, vec![]));
    assert_eq!(run(&[0x6a, 0x02, 0x01], &mut tx, &mut hw), (3, vec![]));
    assert_eq!(run(&[0x6e, 0x02, 0x01], &mut tx, &mut hw), (3, vec![]));
    assert_eq!(run(&[0x6f, 0x02, 0x01], &mut tx, &mut hw), (3, vec![]));
    assert_eq!(tx.unread(), &[0xf0, 0, 0xfe, 0, 0, 0, 0]);
}

#[test]
fn bit_transfer_without_room_waits() {
    let mut hw = Hardware::new();
    let mut tx = Buffer::new(1);
    tx.write_all(&[9]);
    assert_eq!(run(&[0x3b, 0x07, 0x0f], &mut tx, &mut hw), (0, vec![]));
    assert_eq!(run(&[0x6b, 0x07, 0x0f], &mut tx, &mut hw), (0, vec![]));
}

#[test]
fn tms_write_commands() {
    let mut hw = Hardware::new();
    let mut tx = Buffer::new(16);
    assert_eq!(
        run(&[0x4b, 0x02, 0x83], &mut tx, &mut hw),
        (3, vec![PinOp::WriteTmsBits { clock: WriteClock::Mhz6, byte: 0x83, nbits: 3 }])
    );
    // eight bits are more than TMS takes
    assert_eq!(run(&[0x4b, 0x07, 0x83], &mut tx, &mut hw), (3, vec![]));
    assert_eq!(run(&[0x4a, 0x02, 0x83], &mut tx, &mut hw), (3, vec![]));
}

#[test]
fn gpio_and_single_byte_commands() {
    let mut hw = Hardware::new();
    let mut tx = Buffer::new(16);
    assert_eq!(
        run(&[0x80, 0x08, 0x0b], &mut tx, &mut hw),
        (3, vec![PinOp::SetGpio { direction: 0x0b, value: 0x08 }])
    );
    assert_eq!(run(&[0x82, 0x00, 0x00], &mut tx, &mut hw), (3, vec![]));
    assert_eq!(run(&[0x84, 0x86, 0x01, 0x00], &mut tx, &mut hw), (1, vec![]));
    assert_eq!(run(&[0x85], &mut tx, &mut hw), (1, vec![]));
    assert_eq!(run(&[0x87], &mut tx, &mut hw), (1, vec![]));
    assert_eq!(tx.available_read(), 0);
}

#[test]
fn divisor_command_sets_the_clock() {
    let mut hw = Hardware::new();
    let mut tx = Buffer::new(16);
    assert_eq!(run(&[0x86, 0x02, 0x00], &mut tx, &mut hw), (3, vec![]));
    assert_eq!(
        run(&[0x3b, 0x00, 0x01], &mut tx, &mut hw).1,
        vec![PinOp::TransferTdiBits { clock: TransferClock::Mhz2, byte: 1, nbits: 1 }]
    );
    assert_eq!(run(&[0x86, 0xff, 0xff], &mut tx, &mut hw), (3, vec![]));
    assert_eq!(
        run(&[0x3b, 0x00, 0x01], &mut tx, &mut hw).1,
        vec![PinOp::TransferTdiBits { clock: TransferClock::Delay(65532), byte: 1, nbits: 1 }]
    );
    assert_eq!(run(&[0x86, 0x01, 0x02], &mut tx, &mut hw), (3, vec![]));
    assert_eq!(
        run(&[0x1b, 0x00, 0x01], &mut tx, &mut hw).1,
        vec![PinOp::WriteTdiBits { clock: WriteClock::Delay(511), byte: 1, nbits: 1 }]
    );
}
