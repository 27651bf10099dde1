use f042_ftdi::hardware::{Hardware, PinDriver, PinOp, TransferClock, WriteClock};
use std::cell::RefCell;

fn echo_inverted(op: PinOp) -> u8 {
    match op {
        PinOp::TransferTdiBits { byte, .. } | PinOp::TransferTmsBits { byte, .. } => !byte,
        _ => 0x55,
    }
}

#[test]
fn new_hardware_runs_at_the_fastest_clock() {
    let hw = Hardware::new();
    let ops = RefCell::new(Vec::new());
    let mut pins = PinDriver::new(|op: PinOp| {
        ops.borrow_mut().push(op);
        echo_inverted(op)
    });
    assert_eq!(hw.mpsse_transfer_tdi_bits_lsb_mode0(0x0f, 8, &mut pins), 0xf0);
    hw.mpsse_write_tdi_bits_lsb_mode0(0x12, 3, &mut pins);
    assert_eq!(
        *ops.borrow(),
        vec![
            PinOp::TransferTdiBits { clock: TransferClock::Mhz4, byte: 0x0f, nbits: 8 },
            PinOp::WriteTdiBits { clock: WriteClock::Mhz6, byte: 0x12, nbits: 3 },
        ]
    );
}

#[test]
fn divisor_selects_the_clocks() {
    let mut hw = Hardware::new();
    let ops = RefCell::new(Vec::new());
    let mut pins = PinDriver::new(|op: PinOp| {
        ops.borrow_mut().push(op);
        echo_inverted(op)
    });
    hw.mpsse_set_tck_divisor(2);
    hw.mpsse_write_tdi_bits_lsb_mode0(1, 1, &mut pins);
    hw.mpsse_set_tck_divisor(3);
    hw.mpsse_write_tms_bits_lsb_mode0(1, 1, &mut pins);
    hw.mpsse_set_tck_divisor(10);
    hw.mpsse_write_tdi_bits_lsb_mode0(1, 1, &mut pins);
    assert_eq!(
        *ops.borrow(),
        vec![
            PinOp::WriteTdiBits { clock: WriteClock::Mhz3, byte: 1, nbits: 1 },
            PinOp::WriteTmsBits { clock: WriteClock::Delay(0), byte: 1, nbits: 1 },
            PinOp::WriteTdiBits { clock: WriteClock::Delay(7), byte: 1, nbits: 1 },
        ]
    );
}

#[test]
fn transfer_clock_by_divisor() {
    let mut hw = Hardware::new();
    let seen = RefCell::new(Vec::new());
    let mut pins = PinDriver::new(|op: PinOp| {
        seen.borrow_mut().push(op);
        0
    });
    for d in [2u32, 3, 9] {
        hw.mpsse_set_tck_divisor(d);
        hw.mpsse_transfer_tms_bits_lsb_mode0(0x80, 2, &mut pins);
    }
    assert_eq!(
        *seen.borrow(),
        vec![
            PinOp::TransferTmsBits { clock: TransferClock::Mhz2p8, byte: 0x80, nbits: 2 },
            PinOp::TransferTmsBits { clock: TransferClock::Mhz2, byte: 0x80, nbits: 2 },
            PinOp::TransferTmsBits { clock: TransferClock::Delay(5), byte: 0x80, nbits: 2 },
        ]
    );
}

#[test]
fn stopped_clock_touches_no_pin() {
    let mut hw = Hardware::new();
    hw.mpsse_set_tck_divisor(0);
    let calls = RefCell::new(0);
    let mut pins = PinDriver::new(|_op: PinOp| {
        *calls.borrow_mut() += 1;
        0xff
    });
    assert_eq!(hw.mpsse_transfer_tdi_bits_lsb_mode0(1, 8, &mut pins), 0);
    assert_eq!(hw.mpsse_transfer_tms_bits_lsb_mode0(1, 3, &mut pins), 0);
    hw.mpsse_write_tdi_bits_lsb_mode0(1, 8, &mut pins);
    hw.mpsse_write_tms_bits_lsb_mode0(1, 3, &mut pins);
    let mut tdo = [7u8; 2];
    hw.mpsse_transfer_tdi_bytes_lsb_mode0(&[1, 2], &mut tdo, &mut pins);
    assert_eq!(tdo, [0, 0]);
    assert_eq!(*calls.borrow(), 0);
}

#[test]
fn tms_refuses_more_than_seven_bits() {
    let hw = Hardware::new();
    let ops = RefCell::new(Vec::new());
    let mut pins = PinDriver::new(|op: PinOp| {
        ops.borrow_mut().push(op);
        echo_inverted(op)
    });
    hw.mpsse_write_tms_bits_lsb_mode0(0xff, 8, &mut pins);
    assert_eq!(hw.mpsse_transfer_tms_bits_lsb_mode0(0x0f, 8, &mut pins), 0);
    assert!(ops.borrow().is_empty());
    assert_eq!(hw.mpsse_transfer_tms_bits_lsb_mode0(0x0f, 7, &mut pins), 0xf0);
    assert_eq!(ops.borrow().len(), 1);
}

#[test]
fn transfer_bytes_fills_each_slot() {
    let hw = Hardware::new();
    let ops = RefCell::new(Vec::new());
    let mut pins = PinDriver::new(|op: PinOp| {
        ops.borrow_mut().push(op);
        echo_inverted(op)
    });
    let mut tdo = [0xaa; 4];
    hw.mpsse_transfer_tdi_bytes_lsb_mode0(&[0x00, 0x01], &mut tdo, &mut pins);
    assert_eq!(tdo, [0xff, 0xfe, 0xaa, 0xaa]);
    let mut short = [0u8; 1];
    hw.mpsse_transfer_tdi_bytes_lsb_mode0(&[0x10, 0x20, 0x30], &mut short, &mut pins);
    assert_eq!(short, [0xef]);
    let bytes: Vec<u8> = ops
        .borrow()
        .iter()
        .map(|op| match op {
            PinOp::TransferTdiBits { byte, nbits: 8, .. } => *byte,
            _ => panic!("unexpected pin operation"),
        })
        .collect();
    assert_eq!(bytes, vec![0x00, 0x01, 0x10]);
}

#[test]
fn gpio_direction_sets_moder_fields() {
    assert_eq!(Hardware::set_gpio_direction_mpsse(0xffff_ffff, 0b0101), 0xffff_14ff);
    assert_eq!(Hardware::set_gpio_direction_mpsse(0, 0b1010), 0x0000_4100);
    assert_eq!(Hardware::set_gpio_direction_mpsse(0x1234_0000, 0xff), 0x1234_5500);
}

#[test]
fn gpio_value_sets_and_resets_pins() {
    assert_eq!(Hardware::mpsse_gpio_bsrr(0b0011), 0x0050_00a0);
    assert_eq!(Hardware::mpsse_gpio_bsrr(0), 0x00f0_0000);
    assert_eq!(Hardware::mpsse_gpio_bsrr(0xff), 0x0000_00f0);
}

#[test]
fn set_gpio_value_hands_over_the_setting() {
    let hw = Hardware::new();
    let ops = RefCell::new(Vec::new());
    let mut pins = PinDriver::new(|op: PinOp| {
        ops.borrow_mut().push(op);
        echo_inverted(op)
    });
    hw.mpsse_set_gpio_value(0x0b, 0x08, &mut pins);
    assert_eq!(*ops.borrow(), vec![PinOp::SetGpio { direction: 0x0b, value: 0x08 }]);
}

#[test]
fn serial_settings_are_accepted() {
    let hw = Hardware::new();
    hw.set_gpio_direction_serial(0xff);
    hw.serial_set_baud_rate(115_200);
}
